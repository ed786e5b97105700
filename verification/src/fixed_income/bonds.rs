//! Bond pricing: clean and dirty prices, accrued interest under four day count conventions,
//! the coupon schedule, current yield, and yield to call and to worst for callable bonds.
use vstd::prelude::*;

use crate::dec::{dzero, group_dec, lift, oadd, odiv, omul, osub, Dec};
use crate::error::{
    convergence_failure, err_view, insufficient_data, invalid_input, overflow, ErrView, FinError, FinResult,
};
use crate::fixed_income::yields::{one, valid_frequency};
use crate::types::ComputationOutput;

verus! {

broadcast use group_dec;

/// Day count convention for computing accrued interest and period fractions.
#[derive(Debug, Clone, Copy, PartialEq, Eq, Structural)]
pub enum DayCountConvention {
    /// 30/360 US corporate convention
    Thirty360,
    /// ACT/360 money market convention
    Actual360,
    /// ACT/365 fixed (UK gilts)
    Actual365,
    /// ACT/ACT (US Treasury)
    ActualActual,
}

/// Gregorian leap year: divisible by 4 but not by 100, or divisible by 400.
pub open spec fn leap_year_spec(year: int) -> bool {
    (year % 4 == 0 && year % 100 != 0) || year % 400 == 0
}

/// Days in a month; a month outside 1..=12 counts 30 days.
pub open spec fn days_in_month_spec(year: int, month: int) -> int {
    if month == 1 || month == 3 || month == 5 || month == 7 || month == 8 || month == 10 || month
        == 12 {
        31
    } else if month == 4 || month == 6 || month == 9 || month == 11 {
        30
    } else if month == 2 {
        if leap_year_spec(year) {
            29
        } else {
            28
        }
    } else {
        30
    }
}

/// A number and its magnitude have the same divisors.
proof fn lemma_divides_abs(y: int, a: int, d: int)
    requires
        d > 0,
        a == y || a == -y,
    ensures
        (a % d == 0) == (y % d == 0),
{
    if a == -y && y % d == 0 {
        vstd::arithmetic::div_mod::lemma_fundamental_div_mod(y, d);
        assert(a == d * (-(y / d))) by (nonlinear_arith)
            requires
                a == -y,
                y == d * (y / d),
        ;
        vstd::arithmetic::div_mod::lemma_mod_multiples_basic(-(y / d), d);
        assert(d * (-(y / d)) == (-(y / d)) * d) by (nonlinear_arith);
    }
    if a == -y && a % d == 0 {
        vstd::arithmetic::div_mod::lemma_fundamental_div_mod(a, d);
        assert(y == d * (-(a / d))) by (nonlinear_arith)
            requires
                a == -y,
                a == d * (a / d),
        ;
        vstd::arithmetic::div_mod::lemma_mod_multiples_basic(-(a / d), d);
        assert(d * (-(a / d)) == (-(a / d)) * d) by (nonlinear_arith);
    }
}

/// Whether `year` is a Gregorian leap year.
pub fn is_leap_year(year: i32) -> (r: bool)
    ensures
        r == leap_year_spec(year as int),
{
    let a: u64 = if year < 0 {
        (-(year as i64)) as u64
    } else {
        year as u64
    };
    proof {
        lemma_divides_abs(year as int, a as int, 4);
        lemma_divides_abs(year as int, a as int, 100);
        lemma_divides_abs(year as int, a as int, 400);
    }
    (a % 4 == 0 && a % 100 != 0) || a % 400 == 0
}

/// Number of days in a given month of a given year (30 for a month outside 1..=12).
pub fn days_in_month(year: i32, month: u32) -> (r: u32)
    ensures
        r == days_in_month_spec(year as int, month as int),
{
    match month {
        1 | 3 | 5 | 7 | 8 | 10 | 12 => 31,
        4 | 6 | 9 | 11 => 30,
        2 => if is_leap_year(year) {
            29
        } else {
            28
        },
        _ => 30,
    }
}

/// 30/360 day count between two dates given as (year, month, day): a 31st becomes the
/// 30th, and an end on the 31st becomes the 30th when the start is on the 30th or 31st.
pub open spec fn thirty_360_spec(y1: int, m1: int, d1: int, y2: int, m2: int, d2: int) -> int {
    let a = if d1 == 31 {
        30
    } else {
        d1
    };
    let b = if d2 == 31 && a >= 30 {
        30
    } else {
        d2
    };
    (y2 - y1) * 360 + (m2 - m1) * 30 + (b - a)
}


// ---------------------------------------------------------------------------
// Calendar dates
// ---------------------------------------------------------------------------

/// Earliest year of a calendar date.
pub const MIN_YEAR: i32 = -262143;

/// Latest year of a calendar date.
pub const MAX_YEAR: i32 = 262142;

/// A day of the proleptic Gregorian calendar within the supported years.
pub open spec fn date_valid(y: int, m: int, d: int) -> bool {
    &&& MIN_YEAR <= y <= MAX_YEAR
    &&& 1 <= m <= 12
    &&& 1 <= d <= days_in_month_spec(y, m)
}

/// A calendar date (year, month, day).
#[derive(Debug, Clone, Copy, PartialEq, Eq, PartialOrd, Ord)]
pub struct Date {
    year: i32,
    month: u32,
    day: u32,
}

/// `NaiveDate::from_ymd_opt`: the date when the year, month and day name a day of the
/// calendar within chrono's years (-262143 to 262142), otherwise `None`.
#[verifier::external_body]
fn chrono_from_ymd(y: i32, m: u32, d: u32) -> (r: Option<(i32, u32, u32)>)
    ensures
        r is Some <==> date_valid(y as int, m as int, d as int),
        r is Some ==> r == Some((y, m, d)),
{
    match chrono::NaiveDate::from_ymd_opt(y, m, d) {
        Some(_) => Some((y, m, d)),
        None => None,
    }
}

/// Days from 0000-01-01 to January 1st of year `y`.
pub open spec fn days_before_year(y: int) -> int {
    365 * y + (y + 3) / 4 - (y + 99) / 100 + (y + 399) / 400
}

/// Days of year `y` before month `m`.
pub open spec fn days_before_month(y: int, m: int) -> int {
    let t: int = if m <= 1 {
        0
    } else if m == 2 {
        31
    } else if m == 3 {
        59
    } else if m == 4 {
        90
    } else if m == 5 {
        120
    } else if m == 6 {
        151
    } else if m == 7 {
        181
    } else if m == 8 {
        212
    } else if m == 9 {
        243
    } else if m == 10 {
        273
    } else if m == 11 {
        304
    } else {
        334
    };
    if m > 2 && leap_year_spec(y) {
        t + 1
    } else {
        t
    }
}

/// The day's position in the calendar: days since 0000-01-01, plus one.
pub open spec fn day_number(v: (int, int, int)) -> int {
    days_before_year(v.0) + days_before_month(v.0, v.1) + v.2
}

/// `NaiveDate` subtraction, `(a - b).num_days()`: the number of days from `b` to `a`.
#[verifier::external_body]
fn chrono_days_between(a: &Date, b: &Date) -> (r: i64)
    ensures
        r == day_number(a.ymd()) - day_number(b.ymd()),
{
    let x = chrono::NaiveDate::from_ymd_opt(a.year, a.month, a.day).unwrap();
    let y = chrono::NaiveDate::from_ymd_opt(b.year, b.month, b.day).unwrap();
    (x - y).num_days()
}

/// Calendar order: by year, then month, then day.
pub open spec fn date_lt(a: (int, int, int), b: (int, int, int)) -> bool {
    a.0 < b.0 || (a.0 == b.0 && (a.1 < b.1 || (a.1 == b.1 && a.2 < b.2)))
}

/// Months since year 0: year * 12 + month - 1.
pub open spec fn month_index(a: (int, int, int)) -> int {
    a.0 * 12 + a.1 - 1
}

/// The date `months` months away, its day capped at the length of the month; the date
/// itself when that month lies outside the supported years.
pub open spec fn shift_months(a: (int, int, int), months: int) -> (int, int, int) {
    let total = month_index(a) + months;
    let ny = total / 12;
    let nm = total % 12 + 1;
    let max_day = days_in_month_spec(ny, nm);
    let day = if a.2 < max_day {
        a.2
    } else {
        max_day
    };
    if date_valid(ny, nm, day) {
        (ny, nm, day)
    } else {
        a
    }
}

impl Date {
    #[verifier::type_invariant]
    spec fn inv(self) -> bool {
        date_valid(self.year as int, self.month as int, self.day as int)
    }

    /// (year, month, day).
    pub closed spec fn ymd(self) -> (int, int, int) {
        (self.year as int, self.month as int, self.day as int)
    }

    /// The date with this year, month and day, if the calendar has it.
    pub fn from_ymd_opt(year: i32, month: u32, day: u32) -> (r: Option<Date>)
        ensures
            r is Some <==> date_valid(year as int, month as int, day as int),
            r matches Some(d) ==> d.ymd() == (year as int, month as int, day as int),
    {
        match chrono_from_ymd(year, month, day) {
            Some(t) => Some(Date { year: t.0, month: t.1, day: t.2 }),
            None => None,
        }
    }

    pub fn year(&self) -> (r: i32)
        ensures
            r == self.ymd().0,
            date_valid(self.ymd().0, self.ymd().1, self.ymd().2),
    {
        proof {
            use_type_invariant(self);
        }
        self.year
    }

    pub fn month(&self) -> (r: u32)
        ensures
            r == self.ymd().1,
    {
        self.month
    }

    pub fn day(&self) -> (r: u32)
        ensures
            r == self.ymd().2,
    {
        self.day
    }

    /// Whether `self` is an earlier day than `other`.
    pub fn before(&self, other: &Date) -> (r: bool)
        ensures
            r == date_lt(self.ymd(), other.ymd()),
    {
        self.year < other.year || (self.year == other.year && (self.month < other.month || (self.month
            == other.month && self.day < other.day)))
    }

    /// Whether the two dates are the same day.
    pub fn same_day(&self, other: &Date) -> (r: bool)
        ensures
            r == (self.ymd() == other.ymd()),
    {
        self.year == other.year && self.month == other.month && self.day == other.day
    }
}

proof fn lemma_valid(d: Date)
    requires
        d.inv(),
    ensures
        date_valid(d.ymd().0, d.ymd().1, d.ymd().2),
{
}

/// Move a date by a number of months (backwards for a negative count), capping the day at
/// the length of the month; the date itself when the month lies outside the supported years.
pub fn shift_by_months(date: &Date, months: i32) -> (r: Date)
    requires
        -12 <= months <= 12,
    ensures
        r.ymd() == shift_months(date.ymd(), months as int),
{
    proof {
        use_type_invariant(date);
    }
    let total: i64 = date.year as i64 * 12 + date.month as i64 - 1 + months as i64;
    let ny64: i64 = if total >= 0 {
        total / 12
    } else {
        -((-total + 11) / 12)
    };
    let nm64: i64 = total - ny64 * 12 + 1;
    proof {
        assert(ny64 == total / 12 && nm64 == total % 12 + 1) by (nonlinear_arith)
            requires
                total >= 0 ==> ny64 == total / 12,
                total < 0 ==> ny64 == -((-total + 11) / 12),
                nm64 == total - ny64 * 12 + 1,
        ;
    }
    let ny: i32 = ny64 as i32;
    let nm: u32 = nm64 as u32;
    let max_day = days_in_month(ny, nm);
    let day = if date.day < max_day {
        date.day
    } else {
        max_day
    };
    match chrono_from_ymd(ny, nm, day) {
        Some(t) => Date { year: t.0, month: t.1, day: t.2 },
        None => *date,
    }
}


/// A date that has moved a few months, inside the supported years, lands where the month
/// count says.
proof fn lemma_shift(a: (int, int, int), months: int)
    requires
        date_valid(a.0, a.1, a.2),
        -12 <= months <= 12,
        months < 0 ==> a.0 > MIN_YEAR,
        months > 0 ==> a.0 < MAX_YEAR,
    ensures
        month_index(shift_months(a, months)) == month_index(a) + months,
        date_valid(shift_months(a, months).0, shift_months(a, months).1, shift_months(a, months).2),
{
    let total = month_index(a) + months;
    let ny = total / 12;
    let nm = total % 12 + 1;
    assert(total == ny * 12 + (nm - 1) && 0 <= nm - 1 < 12) by (nonlinear_arith)
        requires
            ny == total / 12,
            nm == total % 12 + 1,
    ;
    assert(a.0 - 1 <= ny <= a.0 + 1) by (nonlinear_arith)
        requires
            total == ny * 12 + (nm - 1),
            0 <= nm - 1 < 12,
            total == a.0 * 12 + a.1 - 1 + months,
            1 <= a.1 <= 12,
            -12 <= months <= 12,
    ;
    assert(months < 0 ==> ny <= a.0) by (nonlinear_arith)
        requires
            total == ny * 12 + (nm - 1),
            0 <= nm - 1 < 12,
            total == a.0 * 12 + a.1 - 1 + months,
            1 <= a.1 <= 12,
    ;
    assert(months > 0 ==> ny >= a.0) by (nonlinear_arith)
        requires
            total == ny * 12 + (nm - 1),
            0 <= nm - 1 < 12,
            total == a.0 * 12 + a.1 - 1 + months,
            1 <= a.1 <= 12,
    ;
}

/// Months apart means days apart in calendar order.
proof fn lemma_index_order(a: (int, int, int), b: (int, int, int))
    requires
        1 <= a.1 <= 12,
        1 <= b.1 <= 12,
        month_index(a) < month_index(b),
    ensures
        date_lt(a, b),
{
    if a.0 > b.0 {
        assert(month_index(a) >= month_index(b)) by (nonlinear_arith)
            requires
                a.0 > b.0,
                1 <= a.1 <= 12,
                1 <= b.1 <= 12,
        ;
    }
}

/// Calendar order puts a later date at a month index no smaller.
proof fn lemma_order_index(a: (int, int, int), b: (int, int, int))
    requires
        1 <= a.1 <= 12,
        1 <= b.1 <= 12,
        date_lt(a, b),
    ensures
        month_index(a) <= month_index(b),
{
    if a.0 < b.0 {
        assert(month_index(a) < month_index(b)) by (nonlinear_arith)
            requires
                a.0 < b.0,
                1 <= a.1 <= 12,
                1 <= b.1 <= 12,
        ;
    }
}

/// The coupon dates after `s`, from `date` back by `step` months at a time: `date` first,
/// each next one earlier.
pub open spec fn walk_back(s: (int, int, int), date: (int, int, int), step: int) -> Seq<(int, int, int)>
    decreases month_index(date) - month_index(s) + 12,
{
    if !date_lt(s, date) {
        Seq::empty()
    } else {
        let prev = shift_months(date, -step);
        if month_index(prev) < month_index(date) && month_index(prev) >= month_index(s) - 12 {
            seq![date] + walk_back(s, prev, step)
        } else {
            seq![date]
        }
    }
}

/// The coupon dates after settlement `s` up to maturity `m`, in calendar order.
pub open spec fn coupon_dates_spec(s: (int, int, int), m: (int, int, int), freq: u8) -> Seq<(int, int, int)> {
    walk_back(s, m, 12int / (freq as int)).reverse()
}

/// The last coupon date on or before `s`, walking back from `date` by `step` months.
pub open spec fn last_before(s: (int, int, int), date: (int, int, int), step: int) -> (int, int, int)
    decreases month_index(date) - month_index(s) + 12,
{
    let prev = shift_months(date, -step);
    if !date_lt(s, prev) {
        prev
    } else if month_index(prev) < month_index(date) && month_index(prev) >= month_index(s) - 12 {
        last_before(s, prev, step)
    } else {
        prev
    }
}

/// In calendar order, each after the one before.
pub open spec fn ascending(d: Seq<(int, int, int)>) -> bool {
    forall|i: int, j: int| 0 <= i < j < d.len() ==> date_lt(#[trigger] d[i], #[trigger] d[j])
}

proof fn lemma_walk(s: (int, int, int), date: (int, int, int), step: int)
    requires
        date_valid(date.0, date.1, date.2),
        date_valid(s.0, s.1, s.2),
        s.0 > MIN_YEAR,
        1 <= step <= 12,
    ensures
        forall|k: int| 0 <= k < walk_back(s, date, step).len() ==> {
            let w = #[trigger] walk_back(s, date, step)[k];
            &&& date_valid(w.0, w.1, w.2)
            &&& month_index(w) <= month_index(date)
            &&& date_lt(s, w)
        },
        forall|i: int, j: int|
            0 <= i < j < walk_back(s, date, step).len() ==> month_index(#[trigger] walk_back(s, date, step)[j])
                < month_index(#[trigger] walk_back(s, date, step)[i]),
        walk_back(s, date, step).len() > 0 ==> walk_back(s, date, step)[0] == date,
    decreases month_index(date) - month_index(s) + 12,
{
    if date_lt(s, date) {
        let prev = shift_months(date, -step);
        lemma_order_index(s, date);
        lemma_shift(date, -step);
        if month_index(prev) < month_index(date) && month_index(prev) >= month_index(s) - 12 {
            lemma_walk(s, prev, step);
            let w = walk_back(s, date, step);
            let r = walk_back(s, prev, step);
            assert(w == seq![date] + r);
            assert forall|k: int| 0 <= k < w.len() implies {
                let x = #[trigger] w[k];
                &&& date_valid(x.0, x.1, x.2)
                &&& month_index(x) <= month_index(date)
                &&& date_lt(s, x)
            } by {
                if k > 0 {
                    assert(w[k] == r[k - 1]);
                }
            }
            assert forall|i: int, j: int| 0 <= i < j < w.len() implies month_index(#[trigger] w[j]) < month_index(
                #[trigger] w[i],
            ) by {
                assert(w[j] == r[j - 1]);
                if i > 0 {
                    assert(w[i] == r[i - 1]);
                }
            }
        }
    }
}

/// The coupon dates after `s` up to `m`, walking back from `m` by the coupon period and
/// putting them in calendar order.
fn generate_coupon_dates(s: &Date, m: &Date, freq: u8) -> (r: Vec<Date>)
    requires
        freq == 1 || freq == 2 || freq == 4 || freq == 12,
        s.ymd().0 > MIN_YEAR,
    ensures
        r@.map_values(|d: Date| d.ymd()) == coupon_dates_spec(s.ymd(), m.ymd(), freq),
        ascending(r@.map_values(|d: Date| d.ymd())),
        forall|k: int| 0 <= k < r@.len() ==> date_lt(s.ymd(), (#[trigger] r@[k]).ymd()),
        date_lt(s.ymd(), m.ymd()) ==> r@.len() > 0 && r@[r@.len() - 1].ymd() == m.ymd(),
{
    proof {
        use_type_invariant(s);
        use_type_invariant(m);
    }
    let step: i32 = 12 / freq as i32;
    let ghost sv = s.ymd();
    let mut back: Vec<Date> = Vec::new();
    let mut date = *m;
    proof {
        lemma_walk(sv, m.ymd(), step as int);
    }
    while s.before(&date)
        invariant
            1 <= step <= 12,
            step == 12int / (freq as int),
            sv == s.ymd(),
            date_valid(sv.0, sv.1, sv.2),
            sv.0 > MIN_YEAR,
            date_valid(date.ymd().0, date.ymd().1, date.ymd().2),
            walk_back(sv, m.ymd(), step as int) == back@.map_values(|d: Date| d.ymd()) + walk_back(
                sv,
                date.ymd(),
                step as int,
            ),
        decreases month_index(date.ymd()) - month_index(sv) + 12,
    {
        proof {
            use_type_invariant(&date);
            lemma_order_index(sv, date.ymd());
            lemma_shift(date.ymd(), -step as int);
        }
        let ghost before = back@.map_values(|d: Date| d.ymd());
        back.push(date);
        let prev = shift_by_months(&date, -step);
        proof {
            assert(back@.map_values(|d: Date| d.ymd()) =~= before.push(date.ymd()));
            assert(walk_back(sv, date.ymd(), step as int) == seq![date.ymd()] + walk_back(sv, prev.ymd(), step as int));
            assert(before + walk_back(sv, date.ymd(), step as int) =~= before.push(date.ymd()) + walk_back(
                sv,
                prev.ymd(),
                step as int,
            ));
        }
        date = prev;
    }
    proof {
        assert(back@.map_values(|d: Date| d.ymd()) =~= walk_back(sv, m.ymd(), step as int));
    }
    let mut r: Vec<Date> = Vec::new();
    let mut k: usize = back.len();
    while k > 0
        invariant
            k <= back@.len(),
            r@.len() == back@.len() - k,
            forall|q: int| 0 <= q < r@.len() ==> #[trigger] r@[q] == back@[back@.len() - 1 - q],
        decreases k,
    {
        k = k - 1;
        r.push(back[k]);
    }
    proof {
        let w = walk_back(sv, m.ymd(), step as int);
        assert(r@.map_values(|d: Date| d.ymd()) =~= w.reverse());
        let rv = w.reverse();
        assert forall|i: int, j: int| 0 <= i < j < rv.len() implies date_lt(#[trigger] rv[i], #[trigger] rv[j]) by {
            let a = w.len() - 1 - i;
            let b = w.len() - 1 - j;
            assert(rv[i] == w[a] && rv[j] == w[b]);
            assert(month_index(w[a]) < month_index(w[b]));
            lemma_index_order(w[a], w[b]);
        }
        assert forall|k: int| 0 <= k < r@.len() implies date_lt(s.ymd(), (#[trigger] r@[k]).ymd()) by {
            assert(r@[k].ymd() == rv[k]);
            assert(rv[k] == w[w.len() - 1 - k]);
        }
        if date_lt(sv, m.ymd()) {
            assert(w.len() > 0);
            assert(r@[r@.len() - 1].ymd() == rv[rv.len() - 1]);
        }
    }
    r
}

/// The last coupon date on or before `s`, walking back from `m` by the coupon period.
fn last_coupon_date_before(s: &Date, m: &Date, freq: u8) -> (r: Date)
    requires
        freq == 1 || freq == 2 || freq == 4 || freq == 12,
        s.ymd().0 > MIN_YEAR,
        date_lt(s.ymd(), m.ymd()),
    ensures
        r.ymd() == last_before(s.ymd(), m.ymd(), 12int / (freq as int)),
{
    proof {
        use_type_invariant(s);
        use_type_invariant(m);
    }
    let step: i32 = 12 / freq as i32;
    let ghost sv = s.ymd();
    let mut date = *m;
    loop
        invariant
            1 <= step <= 12,
            step == 12int / (freq as int),
            sv == s.ymd(),
            date_valid(sv.0, sv.1, sv.2),
            sv.0 > MIN_YEAR,
            date_valid(date.ymd().0, date.ymd().1, date.ymd().2),
            date_lt(sv, date.ymd()),
            last_before(sv, m.ymd(), step as int) == last_before(sv, date.ymd(), step as int),
        decreases month_index(date.ymd()) - month_index(sv) + 12,
    {
        proof {
            use_type_invariant(&date);
            lemma_shift(date.ymd(), -step as int);
        }
        let prev = shift_by_months(&date, -step);
        if !s.before(&prev) {
            return prev;
        }
        proof {
            lemma_order_index(sv, prev.ymd());
        }
        date = prev;
    }
}

/// 30/360 days between two dates.
fn thirty_360_days(a: &Date, b: &Date) -> (r: i32)
    ensures
        r == thirty_360_spec(a.ymd().0, a.ymd().1, a.ymd().2, b.ymd().0, b.ymd().1, b.ymd().2),
{
    proof {
        use_type_invariant(a);
        use_type_invariant(b);
    }
    let mut d1 = a.day as i32;
    let mut d2 = b.day as i32;
    if d1 == 31 {
        d1 = 30;
    }
    if d2 == 31 && d1 >= 30 {
        d2 = 30;
    }
    (b.year - a.year) * 360 + (b.month as i32 - a.month as i32) * 30 + (d2 - d1)
}


// ---------------------------------------------------------------------------
// Bond pricing: types and specification
// ---------------------------------------------------------------------------

/// One future cash flow of the bond.
pub struct BondCashflow {
    pub date: Date,
    pub amount: Dec,
    /// "coupon", or "coupon+principal" for the last one.
    pub cashflow_type: String,
}

pub struct BondPricingInput {
    /// Par value.
    pub face_value: Dec,
    /// Annual coupon rate (0.05 = 5%).
    pub coupon_rate: Dec,
    /// Coupons per year: 1, 2, 4 or 12.
    pub coupon_frequency: u8,
    /// Yield to maturity.
    pub ytm: Dec,
    pub settlement_date: Date,
    pub maturity_date: Date,
    pub day_count: DayCountConvention,
    /// Call price, for a callable bond (given together with the call date).
    pub call_price: Option<Dec>,
    pub call_date: Option<Date>,
}

pub struct BondPricingOutput {
    /// Price without accrued interest.
    pub clean_price: Dec,
    /// Clean price plus accrued interest.
    pub dirty_price: Dec,
    /// Interest accrued from the last coupon date to settlement.
    pub accrued_interest: Dec,
    /// Annual coupon / clean price.
    pub current_yield: Dec,
    /// Days to maturity / 365.25.
    pub years_to_maturity: Dec,
    pub num_remaining_coupons: u32,
    /// Coupon per period.
    pub coupon_amount: Dec,
    /// Future cash flows in date order.
    pub total_cashflows: Vec<BondCashflow>,
    /// Yield to call, for a callable bond whose solve converged.
    pub ytc: Option<Dec>,
    /// The smaller of the yield to maturity and the yield to call.
    pub ytw: Option<Dec>,
}

/// The analysis as values.
pub struct BondFigures {
    pub clean: Dec,
    pub dirty: Dec,
    pub accrued: Dec,
    pub current_yield: Dec,
    pub years: Dec,
    pub coupons: nat,
    pub coupon: Dec,
    pub cashflows: Seq<((int, int, int), Dec, Seq<char>)>,
    pub ytc: Option<Dec>,
    pub ytw: Option<Dec>,
    pub warnings: Seq<Seq<char>>,
}

pub open spec fn t360(a: (int, int, int), b: (int, int, int)) -> int {
    thirty_360_spec(a.0, a.1, a.2, b.0, b.1, b.2)
}

/// Days from `b` to `a`.
pub open spec fn days(a: (int, int, int), b: (int, int, int)) -> int {
    day_number(a) - day_number(b)
}

/// The part of the coupon period from `last` to `next` that has elapsed at `s`.
pub open spec fn accrued_fraction(s: (int, int, int), last: (int, int, int), next: (int, int, int), f: u8, dc: DayCountConvention) -> Option<Dec> {
    match dc {
        DayCountConvention::Thirty360 => {
            let den = t360(last, next);
            if den == 0 {
                Some(dzero())
            } else {
                Dec::lit(t360(last, s), 0).div_spec(Dec::lit(den, 0))
            }
        },
        DayCountConvention::Actual360 => odiv(
            Some(Dec::lit(days(s, last), 0)),
            Dec::lit(360, 0).div_spec(Dec::lit(f as int, 0)),
        ),
        DayCountConvention::Actual365 => odiv(
            Some(Dec::lit(days(s, last), 0)),
            Dec::lit(365, 0).div_spec(Dec::lit(f as int, 0)),
        ),
        DayCountConvention::ActualActual => {
            let p = days(next, last);
            if p == 0 {
                Some(dzero())
            } else {
                Dec::lit(days(s, last), 0).div_spec(Dec::lit(p, 0))
            }
        },
    }
}

/// The part of the coupon period from `last` to `next` still to run at `s`.
pub open spec fn remaining_fraction(s: (int, int, int), last: (int, int, int), next: (int, int, int), f: u8, dc: DayCountConvention) -> Option<Dec> {
    match dc {
        DayCountConvention::Thirty360 => {
            let den = t360(last, next);
            if den == 0 {
                Some(one())
            } else {
                Dec::lit(t360(s, next), 0).div_spec(Dec::lit(den, 0))
            }
        },
        DayCountConvention::Actual360 => odiv(
            Some(Dec::lit(days(next, s), 0)),
            Dec::lit(360, 0).div_spec(Dec::lit(f as int, 0)),
        ),
        DayCountConvention::Actual365 => odiv(
            Some(Dec::lit(days(next, s), 0)),
            Dec::lit(365, 0).div_spec(Dec::lit(f as int, 0)),
        ),
        DayCountConvention::ActualActual => {
            let den = days(next, last);
            if den == 0 {
                Some(one())
            } else {
                Dec::lit(days(next, s), 0).div_spec(Dec::lit(den, 0))
            }
        },
    }
}

/// Binomial terms `k..=15` of (1 + x)^frac: `term *= (frac - k + 1) * x / k`, stopping after
/// a term below 1e-11 in magnitude.
pub open spec fn binom_terms(frac: Dec, x: Dec, k: nat, term: Dec, result: Dec) -> Option<Dec>
    decreases 16 - k,
{
    if k > 15 {
        Some(result)
    } else {
        let kd = Dec::lit(k as int, 0);
        match odiv(omul(oadd(frac.sub_spec(kd), Some(one())), Some(x)), Some(kd)) {
            None => None,
            Some(g) => match term.mul_spec(g) {
                None => None,
                Some(t2) => match result.add_spec(t2) {
                    None => None,
                    Some(r2) => if t2.abs_spec().lt_spec(Dec::lit(1, 11)) {
                        Some(r2)
                    } else {
                        binom_terms(frac, x, k + 1, t2, r2)
                    },
                },
            },
        }
    }
}

/// base^frac by fifteen binomial terms; one for frac == 0 or base == 1, base for frac == 1.
pub open spec fn pow_fraction_spec(base: Dec, frac: Dec) -> Option<Dec> {
    if frac.is_zero_spec() {
        Some(one())
    } else if frac.eq_spec(one()) {
        Some(base)
    } else if base.eq_spec(one()) {
        Some(one())
    } else {
        match base.sub_spec(one()) {
            None => None,
            Some(x) => binom_terms(frac, x, 1, one(), one()),
        }
    }
}

/// Coupon `i` of `n`, plus the redemption amount on the last one.
pub open spec fn flow(c: Dec, redemption: Dec, i: nat, n: nat) -> Option<Dec> {
    if i + 1 == n {
        c.add_spec(redemption)
    } else {
        Some(c)
    }
}

/// Coupons `i..n` discounted, the factor growing by `opy` per coupon after the first; a
/// coupon whose factor is zero is skipped.
pub open spec fn pv_loop(n: nat, c: Dec, face: Dec, opy: Dec, i: nat, cum: Dec, pv: Dec) -> Option<Dec>
    decreases n - i,
{
    if i >= n {
        Some(pv)
    } else {
        let cm = if i > 0 {
            cum.mul_spec(opy)
        } else {
            Some(cum)
        };
        match (cm, flow(c, face, i, n)) {
            (Some(cm), Some(cf)) => if cm.is_zero_spec() {
                pv_loop(n, c, face, opy, i + 1, cm, pv)
            } else {
                match oadd(Some(pv), cf.div_spec(cm)) {
                    None => None,
                    Some(p2) => pv_loop(n, c, face, opy, i + 1, cm, p2),
                }
            },
            _ => None,
        }
    }
}

/// The clean price: the cash flows discounted from settlement, with a fractional first
/// period, less the coupon times the elapsed part of the period.
pub open spec fn clean_spec(s: (int, int, int), dates: Seq<(int, int, int)>, c: Dec, face: Dec, ytm: Dec, f: u8, dc: DayCountConvention) -> Option<Dec> {
    if dates.len() == 0 {
        Some(dzero())
    } else {
        let step = 12int / (f as int);
        let last = last_before(s, dates.last(), step);
        let next = shift_months(last, step);
        match (ytm.div_spec(Dec::lit(f as int, 0)), remaining_fraction(s, last, next, f, dc)) {
            (Some(py), Some(fr)) => match one().add_spec(py) {
                None => None,
                Some(opy) => match pow_fraction_spec(opy, fr) {
                    None => None,
                    Some(first) => match pv_loop(dates.len(), c, face, opy, 0, first, dzero()) {
                        None => None,
                        Some(pv) => osub(Some(pv), omul(Some(c), one().sub_spec(fr))),
                    },
                },
            },
            _ => None,
        }
    }
}

/// The coupon times the part of the current period elapsed at settlement.
pub open spec fn accrued_spec(s: (int, int, int), m: (int, int, int), f: u8, c: Dec, dc: DayCountConvention) -> Option<Dec> {
    let step = 12int / (f as int);
    let last = last_before(s, m, step);
    omul(Some(c), accrued_fraction(s, last, shift_months(last, step), f, dc))
}

/// Coupons `i..n` of the price to call and its derivative in the periodic yield.
pub open spec fn pd_loop(n: nat, c: Dec, cp: Dec, opy: Dec, fr: Dec, freq: Dec, i: nat, factor: Dec, p: Dec, dp: Dec) -> Option<(Dec, Dec)>
    decreases n - i,
{
    if i >= n {
        Some((p, dp))
    } else {
        let fc = if i > 0 {
            factor.mul_spec(opy)
        } else {
            Some(factor)
        };
        match (fc, flow(c, cp, i, n)) {
            (Some(fc), Some(cf)) => if fc.is_zero_spec() {
                pd_loop(n, c, cp, opy, fr, freq, i + 1, fc, p, dp)
            } else {
                match oadd(Some(p), cf.div_spec(fc)) {
                    None => None,
                    Some(p2) => match osub(
                        Some(dp),
                        odiv(omul(odiv(fr.add_spec(Dec::lit(i as int, 0)), Some(freq)), Some(cf)), fc.mul_spec(opy)),
                    ) {
                        None => None,
                        Some(d2) => pd_loop(n, c, cp, opy, fr, freq, i + 1, fc, p2, d2),
                    },
                }
            },
            _ => None,
        }
    }
}

pub open spec fn price_derivative(n: nat, c: Dec, cp: Dec, opy: Dec, fr: Dec, freq: Dec) -> Option<(Dec, Dec)> {
    match pow_fraction_spec(opy, fr) {
        None => None,
        Some(first) => pd_loop(n, c, cp, opy, fr, freq, 0, first, dzero(), dzero()),
    }
}

/// Newton iterations `it..50` for the yield to call from `y`: `Ok` with the yield once the
/// pricing error is below 1e-7, `Err` with the iteration and error when the derivative
/// vanishes or the iterations run out.
pub open spec fn ytc_newton(n: nat, c: Dec, cp: Dec, dirty: Dec, fr: Dec, freq: Dec, y: Dec, it: nat) -> Option<Result<Dec, (u32, Dec)>>
    decreases 50 - it,
{
    if it >= 50 {
        Some(Err((50, dzero())))
    } else {
        match oadd(Some(one()), y.div_spec(freq)) {
            None => None,
            Some(opy) => match price_derivative(n, c, cp, opy, fr, freq) {
                None => None,
                Some(pd) => match pd.0.sub_spec(dirty) {
                    None => None,
                    Some(fv) => if fv.abs_spec().lt_spec(Dec::lit(1, 7)) {
                        Some(Ok(y))
                    } else if pd.1.is_zero_spec() {
                        Some(Err((it as u32, fv)))
                    } else {
                        match osub(Some(y), fv.div_spec(pd.1)) {
                            None => None,
                            Some(y2) => {
                                let y3 = if y2.lt_spec(Dec::lit(-50, 2)) {
                                    Dec::lit(-50, 2)
                                } else if y2.gt_spec(Dec::lit(10, 1)) {
                                    Dec::lit(10, 1)
                                } else {
                                    y2
                                };
                                ytc_newton(n, c, cp, dirty, fr, freq, y3, it + 1)
                            },
                        }
                    },
                },
            },
        }
    }
}

/// The yield to call, by Newton's method from 5%.
pub open spec fn ytc_spec(dirty: Dec, s: (int, int, int), cd: (int, int, int), c: Dec, cp: Dec, f: u8, dc: DayCountConvention) -> Result<Dec, ErrView> {
    let n = coupon_dates_spec(s, cd, f).len();
    if n == 0 {
        Err(insufficient_data("No coupon periods between settlement and call date"@))
    } else {
        let step = 12int / (f as int);
        let last = last_before(s, cd, step);
        match remaining_fraction(s, last, shift_months(last, step), f, dc) {
            None => Err(overflow()),
            Some(fr) => match ytc_newton(n, c, cp, dirty, fr, Dec::lit(f as int, 0), Dec::lit(5, 2), 0) {
                None => Err(overflow()),
                Some(Ok(y)) => Ok(y),
                Some(Err(t)) => Err(convergence_failure("YTC"@, t.0, t.1)),
            },
        }
    }
}

pub open spec fn bond_validation(i: BondPricingInput) -> Option<ErrView> {
    let s = i.settlement_date.ymd();
    let m = i.maturity_date.ymd();
    if i.face_value.le_spec(dzero()) {
        Some(invalid_input("face_value"@, "Face value must be positive"@))
    } else if i.coupon_rate.lt_spec(dzero()) {
        Some(invalid_input("coupon_rate"@, "Coupon rate cannot be negative"@))
    } else if !valid_frequency(i.coupon_frequency) {
        Some(invalid_input("coupon_frequency"@, "Coupon frequency must be 1, 2, 4, or 12"@))
    } else if !date_lt(s, m) {
        Some(invalid_input("maturity_date"@, "Maturity date must be after settlement date"@))
    } else if i.call_date matches Some(cd) && !date_lt(s, cd.ymd()) {
        Some(invalid_input("call_date"@, "Call date must be after settlement date"@))
    } else if i.call_date matches Some(cd) && !date_lt(cd.ymd(), m) {
        Some(invalid_input("call_date"@, "Call date must be before maturity date"@))
    } else if (i.call_price is Some) != (i.call_date is Some) {
        Some(
            invalid_input(
                "call_price/call_date"@,
                "Both call_price and call_date must be provided together, or neither"@,
            ),
        )
    } else {
        None
    }
}

/// The cash flows on the coupon dates: the coupon, with the face value added on the last.
pub open spec fn cashflows_spec(dates: Seq<(int, int, int)>, c: Dec, face: Dec) -> Option<Seq<((int, int, int), Dec, Seq<char>)>> {
    let n = dates.len();
    if n == 0 {
        Some(Seq::empty())
    } else {
        match c.add_spec(face) {
            None => None,
            Some(last) => Some(
                Seq::new(
                    n,
                    |k: int|
                        if k == n - 1 {
                            (dates[k], last, "coupon+principal"@)
                        } else {
                            (dates[k], c, "coupon"@)
                        },
                ),
            ),
        }
    }
}

pub open spec fn bond_spec(i: BondPricingInput) -> Result<BondFigures, ErrView> {
    match bond_validation(i) {
        Some(e) => Err(e),
        None => {
            let f = i.coupon_frequency;
            let s = i.settlement_date.ymd();
            let m = i.maturity_date.ymd();
            let dates = coupon_dates_spec(s, m, f);
            match i.face_value.mul_spec(i.coupon_rate) {
                None => Err(overflow()),
                Some(annual) => match annual.div_spec(Dec::lit(f as int, 0)) {
                    None => Err(overflow()),
                    Some(c) => match cashflows_spec(dates, c, i.face_value) {
                    None => Err(overflow()),
                    Some(cfs) => match (
                        accrued_spec(s, m, f, c, i.day_count),
                        clean_spec(s, dates, c, i.face_value, i.ytm, f, i.day_count),
                    ) {
                        (Some(accrued), Some(clean)) => match (
                            clean.add_spec(accrued),
                            if clean.gt_spec(dzero()) {
                                annual.div_spec(clean)
                            } else {
                                Some(dzero())
                            },
                            Dec::lit(days(m, s), 0).div_spec(Dec::lit(36525, 2)),
                        ) {
                            (Some(dirty), Some(cy), Some(years)) => {
                                let w1: Seq<Seq<char>> = if clean.gt_spec(dzero()) {
                                    Seq::empty()
                                } else {
                                    seq!["Clean price is zero or negative; current yield undefined"@]
                                };
                                let call: Result<(Option<Dec>, Option<Dec>, Seq<Seq<char>>), ErrView> = match (
                                    i.call_price,
                                    i.call_date,
                                ) {
                                    (Some(cp), Some(cd)) => match ytc_spec(dirty, s, cd.ymd(), c, cp, f, i.day_count) {
                                        Ok(y) => Ok(
                                            (
                                                Some(y),
                                                Some(
                                                    if y.lt_spec(i.ytm) {
                                                        y
                                                    } else {
                                                        i.ytm
                                                    },
                                                ),
                                                w1,
                                            ),
                                        ),
                                        Err(e) => if e == overflow() {
                                            Err(overflow())
                                        } else {
                                            Ok((None, None, w1.push("YTC Newton's method did not converge"@)))
                                        },
                                    },
                                    _ => Ok((None, None, w1)),
                                };
                                match call {
                                    Err(e) => Err(e),
                                    Ok(k) => Ok(
                                        BondFigures {
                                            clean,
                                            dirty,
                                            accrued,
                                            current_yield: cy,
                                            years,
                                            coupons: dates.len(),
                                            coupon: c,
                                            cashflows: cfs,
                                            ytc: k.0,
                                            ytw: k.1,
                                            warnings: k.2,
                                        },
                                    ),
                                }
                            },
                            _ => Err(overflow()),
                        },
                        _ => Err(overflow()),
                    },
                    },
                },
            }
        },
    }
}


// ---------------------------------------------------------------------------
// Bond pricing: implementation
// ---------------------------------------------------------------------------

fn str_of(s: &str) -> (r: String)
    ensures
        r@ == s@,
{
    String::from_str(s)
}

fn validate_input(input: &BondPricingInput) -> (r: FinResult<()>)
    ensures
        r is Err <==> bond_validation(*input) is Some,
        r matches Err(e) ==> bond_validation(*input) == Some(err_view(e)),
{
    let zero = Dec::zero();
    if input.face_value.le(&zero) {
        return Err(FinError::InvalidInput { field: str_of("face_value"), reason: str_of("Face value must be positive") });
    }
    if input.coupon_rate.lt(&zero) {
        return Err(
            FinError::InvalidInput { field: str_of("coupon_rate"), reason: str_of("Coupon rate cannot be negative") },
        );
    }
    let f = input.coupon_frequency;
    if !(f == 1 || f == 2 || f == 4 || f == 12) {
        return Err(
            FinError::InvalidInput {
                field: str_of("coupon_frequency"),
                reason: str_of("Coupon frequency must be 1, 2, 4, or 12"),
            },
        );
    }
    if !input.settlement_date.before(&input.maturity_date) {
        return Err(
            FinError::InvalidInput {
                field: str_of("maturity_date"),
                reason: str_of("Maturity date must be after settlement date"),
            },
        );
    }
    match &input.call_date {
        Some(cd) => {
            if !input.settlement_date.before(cd) {
                return Err(
                    FinError::InvalidInput {
                        field: str_of("call_date"),
                        reason: str_of("Call date must be after settlement date"),
                    },
                );
            }
            if !cd.before(&input.maturity_date) {
                return Err(
                    FinError::InvalidInput {
                        field: str_of("call_date"),
                        reason: str_of("Call date must be before maturity date"),
                    },
                );
            }
        },
        None => {},
    }
    if input.call_price.is_some() != input.call_date.is_some() {
        return Err(
            FinError::InvalidInput {
                field: str_of("call_price/call_date"),
                reason: str_of("Both call_price and call_date must be provided together, or neither"),
            },
        );
    }
    Ok(())
}

fn build_cashflow_schedule(dates: &Vec<Date>, c: Dec, face: Dec) -> (r: FinResult<Vec<BondCashflow>>)
    ensures
        r is Err <==> cashflows_spec(dates@.map_values(|d: Date| d.ymd()), c, face) is None,
        r is Err ==> r == Err::<Vec<BondCashflow>, FinError>(FinError::ArithmeticOverflow),
        r matches Ok(v) ==> cashflows_spec(dates@.map_values(|d: Date| d.ymd()), c, face) == Some(
            v@.map_values(|x: BondCashflow| (x.date.ymd(), x.amount, x.cashflow_type@)),
        ),
{
    let ghost dv = dates@.map_values(|d: Date| d.ymd());
    let n = dates.len();
    if n == 0 {
        let empty: Vec<BondCashflow> = Vec::new();
        proof {
            assert(empty@.map_values(|x: BondCashflow| (x.date.ymd(), x.amount, x.cashflow_type@)) =~= Seq::empty());
        }
        return Ok(empty);
    }
    let last = c.add(&face)?;
    let mut out: Vec<BondCashflow> = Vec::new();
    let mut k: usize = 0;
    while k < n
        invariant
            k <= n,
            n == dates@.len(),
            n > 0,
            dv == dates@.map_values(|d: Date| d.ymd()),
            c.add_spec(face) == Some(last),
            out@.len() == k,
            forall|q: int|
                0 <= q < k ==> (#[trigger] out@[q]).date.ymd() == dv[q] && out@[q].amount == (if q == n - 1 {
                    last
                } else {
                    c
                }) && out@[q].cashflow_type@ == (if q == n - 1 {
                    "coupon+principal"@
                } else {
                    "coupon"@
                }),
        decreases n - k,
    {
        if k == n - 1 {
            out.push(BondCashflow { date: dates[k], amount: last, cashflow_type: str_of("coupon+principal") });
        } else {
            out.push(BondCashflow { date: dates[k], amount: c, cashflow_type: str_of("coupon") });
        }
        k = k + 1;
    }
    proof {
        let sp = cashflows_spec(dv, c, face)->Some_0;
        assert(out@.map_values(|x: BondCashflow| (x.date.ymd(), x.amount, x.cashflow_type@)) =~= sp);
    }
    Ok(out)
}

fn days_dec(a: &Date, b: &Date) -> (r: Dec)
    ensures
        r == Dec::lit(days(a.ymd(), b.ymd()), 0),
{
    Dec::from_int(chrono_days_between(a, b))
}

fn day_count_fraction(s: &Date, last: &Date, next: &Date, f: u8, dc: DayCountConvention, elapsed: bool) -> (r: FinResult<Dec>)
    ensures
        elapsed ==> r == lift(accrued_fraction(s.ymd(), last.ymd(), next.ymd(), f, dc)),
        !elapsed ==> r == lift(remaining_fraction(s.ymd(), last.ymd(), next.ymd(), f, dc)),
{
    match dc {
        DayCountConvention::Thirty360 => {
            let den = thirty_360_days(last, next);
            if den == 0 {
                return Ok(
                    if elapsed {
                        Dec::zero()
                    } else {
                        Dec::one()
                    },
                );
            }
            let num = if elapsed {
                thirty_360_days(last, s)
            } else {
                thirty_360_days(s, next)
            };
            Dec::from_int(num as i64).div(&Dec::from_int(den as i64))
        },
        DayCountConvention::Actual360 | DayCountConvention::Actual365 => {
            let num = if elapsed {
                days_dec(s, last)
            } else {
                days_dec(next, s)
            };
            let year = if dc == DayCountConvention::Actual360 {
                Dec::new(360, 0)
            } else {
                Dec::new(365, 0)
            };
            num.div(&year.div(&Dec::from_u64(f as u64))?)
        },
        DayCountConvention::ActualActual => {
            let den = days_dec(next, last);
            if den.is_zero() {
                return Ok(
                    if elapsed {
                        Dec::zero()
                    } else {
                        Dec::one()
                    },
                );
            }
            let num = if elapsed {
                days_dec(s, last)
            } else {
                days_dec(next, s)
            };
            num.div(&den)
        },
    }
}

/// base^frac by the binomial series (fifteen terms at most, stopping after a term below
/// 1e-11 in magnitude); one for frac == 0 or base == 1, base for frac == 1.
fn decimal_pow_fraction(base: Dec, frac: Dec) -> (r: FinResult<Dec>)
    ensures
        r == lift(pow_fraction_spec(base, frac)),
{
    let one = Dec::one();
    if frac.is_zero() {
        return Ok(one);
    }
    if frac.eq(&one) {
        return Ok(base);
    }
    if base.eq(&one) {
        return Ok(one);
    }
    let x = base.sub(&one)?;
    let mut result = Dec::one();
    let mut term = Dec::one();
    let tol = Dec::new(1, 11);
    let mut k: u64 = 1;
    while k <= 15
        invariant
            1 <= k <= 16,
            one == Dec::lit(1, 0),
            tol == Dec::lit(1, 11),
            pow_fraction_spec(base, frac) == binom_terms(frac, x, k as nat, term, result),
        decreases 16 - k,
    {
        let kd = Dec::from_u64(k);
        let g = frac.sub(&kd)?.add(&one)?.mul(&x)?.div(&kd)?;
        term = term.mul(&g)?;
        result = result.add(&term)?;
        if term.abs().lt(&tol) {
            return Ok(result);
        }
        k = k + 1;
    }
    Ok(result)
}

/// The clean price: the cash flows discounted from settlement with a fractional first
/// period, less the coupon times the part of the period already elapsed.
fn compute_clean_price(s: &Date, dates: &Vec<Date>, c: Dec, face: Dec, ytm: Dec, f: u8, dc: DayCountConvention) -> (r: FinResult<Dec>)
    requires
        f == 1 || f == 2 || f == 4 || f == 12,
        s.ymd().0 > MIN_YEAR,
        forall|k: int| 0 <= k < dates@.len() ==> date_lt(s.ymd(), (#[trigger] dates@[k]).ymd()),
    ensures
        r == lift(clean_spec(s.ymd(), dates@.map_values(|d: Date| d.ymd()), c, face, ytm, f, dc)),
{
    let ghost dv = dates@.map_values(|d: Date| d.ymd());
    let n = dates.len();
    if n == 0 {
        return Ok(Dec::zero());
    }
    let one = Dec::one();
    let freq = Dec::from_u64(f as u64);
    let py = ytm.div(&freq)?;
    let step: i32 = 12 / f as i32;
    let last = last_coupon_date_before(s, &dates[n - 1], f);
    let next = shift_by_months(&last, step);
    let fr = day_count_fraction(s, &last, &next, f, dc, false)?;
    let opy = one.add(&py)?;
    let first = decimal_pow_fraction(opy, fr)?;
    let mut pv = Dec::zero();
    let mut cum = first;
    let mut i: usize = 0;
    proof {
        assert(dv.last() == dates@[n - 1].ymd());
        assert(clean_spec(s.ymd(), dv, c, face, ytm, f, dc) == osub(
            pv_loop(n as nat, c, face, opy, 0, first, dzero()),
            omul(Some(c), Dec::lit(1, 0).sub_spec(fr)),
        ));
    }
    while i < n
        invariant
            i <= n,
            n == dates@.len(),
            dv == dates@.map_values(|d: Date| d.ymd()),
            clean_spec(s.ymd(), dv, c, face, ytm, f, dc) == osub(
                pv_loop(n as nat, c, face, opy, 0, first, dzero()),
                omul(Some(c), Dec::lit(1, 0).sub_spec(fr)),
            ),
            pv_loop(n as nat, c, face, opy, 0, first, dzero()) == pv_loop(n as nat, c, face, opy, i as nat, cum, pv),
        decreases n - i,
    {
        let step_ok = if i > 0 {
            cum.mul(&opy)
        } else {
            Ok(cum)
        };
        let cf_ok = if i + 1 == n {
            c.add(&face)
        } else {
            Ok(c)
        };
        match (step_ok, cf_ok) {
            (Ok(cm), Ok(cf)) => {
                cum = cm;
                if !cm.is_zero() {
                    pv = match cf.div(&cm) {
                        Ok(q) => match pv.add(&q) {
                            Ok(p2) => p2,
                            Err(e) => {
                                return Err(e);
                            },
                        },
                        Err(e) => {
                            return Err(e);
                        },
                    };
                }
            },
            _ => {
                return Err(FinError::ArithmeticOverflow);
            },
        }
        i = i + 1;
    }
    pv.sub(&c.mul(&one.sub(&fr)?)?)
}

/// The coupon times the part of the current period elapsed at settlement.
fn compute_accrued_interest(s: &Date, m: &Date, f: u8, c: Dec, dc: DayCountConvention) -> (r: FinResult<Dec>)
    requires
        f == 1 || f == 2 || f == 4 || f == 12,
        s.ymd().0 > MIN_YEAR,
        date_lt(s.ymd(), m.ymd()),
    ensures
        r == lift(accrued_spec(s.ymd(), m.ymd(), f, c, dc)),
{
    let step: i32 = 12 / f as i32;
    let last = last_coupon_date_before(s, m, f);
    let next = shift_by_months(&last, step);
    let frac = day_count_fraction(s, &last, &next, f, dc, true)?;
    c.mul(&frac)
}

/// The price to call and its derivative in the periodic yield.
fn price_and_derivative_to_call(n: usize, c: Dec, cp: Dec, opy: Dec, fr: Dec, freq: Dec) -> (r: FinResult<(Dec, Dec)>)
    ensures
        match price_derivative(n as nat, c, cp, opy, fr, freq) {
            Some(t) => r == Ok::<(Dec, Dec), FinError>(t),
            None => r == Err::<(Dec, Dec), FinError>(FinError::ArithmeticOverflow),
        },
{
    let first = decimal_pow_fraction(opy, fr)?;
    let mut p = Dec::zero();
    let mut dp = Dec::zero();
    let mut factor = first;
    let mut i: usize = 0;
    while i < n
        invariant
            i <= n,
            pow_fraction_spec(opy, fr) == Some(first),
            pd_loop(n as nat, c, cp, opy, fr, freq, 0, first, dzero(), dzero()) == pd_loop(
                n as nat,
                c,
                cp,
                opy,
                fr,
                freq,
                i as nat,
                factor,
                p,
                dp,
            ),
        decreases n - i,
    {
        if i > 0 {
            factor = factor.mul(&opy)?;
        }
        let cf = if i + 1 == n {
            c.add(&cp)?
        } else {
            c
        };
        if !factor.is_zero() {
            p = p.add(&cf.div(&factor)?)?;
            let t = fr.add(&Dec::from_u64(i as u64))?;
            let term = t.div(&freq)?.mul(&cf)?.div(&factor.mul(&opy)?)?;
            dp = dp.sub(&term)?;
        }
        i = i + 1;
    }
    Ok((p, dp))
}

fn ytc_newton_exec(n: usize, c: Dec, cp: Dec, dirty: Dec, fr: Dec, freq: Dec) -> (r: FinResult<Result<Dec, (u32, Dec)>>)
    ensures
        match ytc_newton(n as nat, c, cp, dirty, fr, freq, Dec::lit(5, 2), 0) {
            Some(o) => r == Ok::<Result<Dec, (u32, Dec)>, FinError>(o),
            None => r == Err::<Result<Dec, (u32, Dec)>, FinError>(FinError::ArithmeticOverflow),
        },
{
    let one = Dec::one();
    let eps = Dec::new(1, 7);
    let lo = Dec::new(-50, 2);
    let hi = Dec::new(10, 1);
    let mut y = Dec::new(5, 2);
    let mut it: u32 = 0;
    while it < 50
        invariant
            it <= 50,
            one == Dec::lit(1, 0),
            eps == Dec::lit(1, 7),
            lo == Dec::lit(-50, 2),
            hi == Dec::lit(10, 1),
            ytc_newton(n as nat, c, cp, dirty, fr, freq, Dec::lit(5, 2), 0) == ytc_newton(
                n as nat,
                c,
                cp,
                dirty,
                fr,
                freq,
                y,
                it as nat,
            ),
        decreases 50 - it,
    {
        let opy = one.add(&y.div(&freq)?)?;
        let pd = price_and_derivative_to_call(n, c, cp, opy, fr, freq)?;
        let fv = pd.0.sub(&dirty)?;
        if fv.abs().lt(&eps) {
            return Ok(Ok(y));
        }
        if pd.1.is_zero() {
            return Ok(Err((it, fv)));
        }
        let y2 = y.sub(&fv.div(&pd.1)?)?;
        y = if y2.lt(&lo) {
            lo
        } else if y2.gt(&hi) {
            hi
        } else {
            y2
        };
        it = it + 1;
    }
    Ok(Err((50, Dec::zero())))
}

/// The yield to call by Newton's method on the price to the call date.
fn compute_ytc(dirty: Dec, s: &Date, cd: &Date, c: Dec, cp: Dec, f: u8, dc: DayCountConvention) -> (r: FinResult<Dec>)
    requires
        f == 1 || f == 2 || f == 4 || f == 12,
        s.ymd().0 > MIN_YEAR,
        date_lt(s.ymd(), cd.ymd()),
    ensures
        r is Err <==> ytc_spec(dirty, s.ymd(), cd.ymd(), c, cp, f, dc) is Err,
        r matches Err(e) ==> ytc_spec(dirty, s.ymd(), cd.ymd(), c, cp, f, dc) == Err::<Dec, ErrView>(err_view(e)),
        r matches Ok(y) ==> ytc_spec(dirty, s.ymd(), cd.ymd(), c, cp, f, dc) == Ok::<Dec, ErrView>(y),
{
    let dates = generate_coupon_dates(s, cd, f);
    let n = dates.len();
    if n == 0 {
        return Err(FinError::InsufficientData(str_of("No coupon periods between settlement and call date")));
    }
    let step: i32 = 12 / f as i32;
    let last = last_coupon_date_before(s, cd, f);
    let next = shift_by_months(&last, step);
    let fr = day_count_fraction(s, &last, &next, f, dc, false)?;
    let freq = Dec::from_u64(f as u64);
    match ytc_newton_exec(n, c, cp, dirty, fr, freq)? {
        Ok(y) => Ok(y),
        Err(t) => Err(FinError::ConvergenceFailure { function: str_of("YTC"), iterations: t.0, last_delta: t.1 }),
    }
}

/// Price a bond: clean and dirty prices, accrued interest, current yield, years to
/// maturity, the cash flow schedule, and for a callable bond the yield to call and to
/// worst (both absent, with a warning, when the yield to call does not converge).
pub fn price_bond(input: &BondPricingInput) -> (r: FinResult<ComputationOutput<BondPricingOutput>>)
    requires
        input.settlement_date.ymd().0 > MIN_YEAR,
    ensures
        r is Err <==> bond_spec(*input) is Err,
        r matches Err(e) ==> bond_spec(*input) == Err::<BondFigures, ErrView>(err_view(e)),
        r matches Ok(o) ==> {
            let b = bond_spec(*input)->Ok_0;
            &&& o.methodology@ == "Bond Pricing — PV of cashflows with day count convention"@
            &&& o.warnings@.map_values(|w: String| w@) == b.warnings
            &&& o.result.clean_price == b.clean
            &&& o.result.dirty_price == b.dirty
            &&& o.result.accrued_interest == b.accrued
            &&& o.result.current_yield == b.current_yield
            &&& o.result.years_to_maturity == b.years
            &&& o.result.num_remaining_coupons == b.coupons as u32
            &&& o.result.coupon_amount == b.coupon
            &&& o.result.total_cashflows@.map_values(
                |x: BondCashflow| (x.date.ymd(), x.amount, x.cashflow_type@),
            ) == b.cashflows
            &&& o.result.ytc == b.ytc
            &&& o.result.ytw == b.ytw
            &&& ascending(b.cashflows.map_values(|x: ((int, int, int), Dec, Seq<char>)| x.0))
            &&& b.cashflows.len() > 0
            &&& b.cashflows.last().0 == input.maturity_date.ymd()
            &&& b.cashflows.last().2 == "coupon+principal"@
            &&& forall|k: int|
                0 <= k < b.cashflows.len() ==> date_lt(
                    input.settlement_date.ymd(),
                    (#[trigger] b.cashflows[k]).0,
                ) && (k < b.cashflows.len() - 1 ==> b.cashflows[k].2 == "coupon"@)
        },
{
    validate_input(input)?;
    let f = input.coupon_frequency;
    let s = &input.settlement_date;
    let m = &input.maturity_date;
    let freq = Dec::from_u64(f as u64);
    let annual = input.face_value.mul(&input.coupon_rate)?;
    let c = annual.div(&freq)?;
    let dates = generate_coupon_dates(s, m, f);
    let n: u32 = #[verifier::truncate] (dates.len() as u32);
    let cashflows = build_cashflow_schedule(&dates, c, input.face_value)?;
    let accrued = compute_accrued_interest(s, m, f, c, input.day_count)?;
    let clean = compute_clean_price(s, &dates, c, input.face_value, input.ytm, f, input.day_count)?;
    let dirty = clean.add(&accrued)?;
    let mut warnings: Vec<String> = Vec::new();
    let cy = if clean.gt(&Dec::zero()) {
        annual.div(&clean)?
    } else {
        warnings.push(str_of("Clean price is zero or negative; current yield undefined"));
        Dec::zero()
    };
    let years = days_dec(m, s).div(&Dec::new(36525, 2))?;
    let mut ytc: Option<Dec> = None;
    let mut ytw: Option<Dec> = None;
    match (input.call_price, &input.call_date) {
        (Some(cp), Some(cd)) => match compute_ytc(dirty, s, cd, c, cp, f, input.day_count) {
            Ok(y) => {
                ytc = Some(y);
                ytw = Some(
                    if y.lt(&input.ytm) {
                        y
                    } else {
                        input.ytm
                    },
                );
            },
            Err(e) => {
                match e {
                    FinError::ArithmeticOverflow => {
                        return Err(FinError::ArithmeticOverflow);
                    },
                    _ => {},
                }
                warnings.push(str_of("YTC Newton's method did not converge"));
            },
        },
        _ => {},
    }
    proof {
        let dv = dates@.map_values(|d: Date| d.ymd());
        let cv = cashflows@.map_values(|x: BondCashflow| (x.date.ymd(), x.amount, x.cashflow_type@));
        assert(cv.map_values(|x: ((int, int, int), Dec, Seq<char>)| x.0) =~= dv);
        use_type_invariant(s);
        use_type_invariant(m);
        lemma_valid(*s);
        lemma_valid(*m);
        lemma_bond_schedule(*input);
    }
    Ok(
        ComputationOutput {
            methodology: str_of("Bond Pricing — PV of cashflows with day count convention"),
            warnings,
            result: BondPricingOutput {
                clean_price: clean,
                dirty_price: dirty,
                accrued_interest: accrued,
                current_yield: cy,
                years_to_maturity: years,
                num_remaining_coupons: n,
                coupon_amount: c,
                total_cashflows: cashflows,
                ytc,
                ytw,
            },
        },
    )
}

proof fn lemma_coupon_dates(s: (int, int, int), m: (int, int, int), freq: u8)
    requires
        date_valid(s.0, s.1, s.2),
        date_valid(m.0, m.1, m.2),
        s.0 > MIN_YEAR,
        valid_frequency(freq),
        date_lt(s, m),
    ensures
        coupon_dates_spec(s, m, freq).len() > 0,
        coupon_dates_spec(s, m, freq).last() == m,
        forall|k: int|
            0 <= k < coupon_dates_spec(s, m, freq).len() ==> date_lt(s, #[trigger] coupon_dates_spec(s, m, freq)[k]),
{
    let step = 12int / (freq as int);
    let fi = freq as int;
    if fi == 1 {
        assert(fi == 1);
        assert(step == 12int / 1int);
    } else if fi == 2 {
        assert(fi == 2);
        assert(step == 12int / 2int);
    } else if fi == 4 {
        assert(fi == 4);
        assert(step == 12int / 4int);
    } else {
        assert(fi == 12);
        assert(step == 12int / 12int);
    }
    lemma_walk(s, m, step);
    let w = walk_back(s, m, step);
    let d = coupon_dates_spec(s, m, freq);
    assert(w.len() > 0);
    assert(d.last() == w[0]);
    assert forall|k: int| 0 <= k < d.len() implies date_lt(s, #[trigger] d[k]) by {
        assert(d[k] == w[w.len() - 1 - k]);
    }
}

/// The cash-flow schedule of a priced bond: at least one cash flow, each on a date after
/// settlement, every one a coupon but the last, which pays coupon and principal on the
/// maturity date.
pub proof fn lemma_bond_schedule(i: BondPricingInput)
    requires
        bond_spec(i) is Ok,
        i.settlement_date.ymd().0 > MIN_YEAR,
        date_valid(i.settlement_date.ymd().0, i.settlement_date.ymd().1, i.settlement_date.ymd().2),
        date_valid(i.maturity_date.ymd().0, i.maturity_date.ymd().1, i.maturity_date.ymd().2),
    ensures
        ({
            let cfs = bond_spec(i)->Ok_0.cashflows;
            &&& cfs.len() > 0
            &&& cfs.last().0 == i.maturity_date.ymd()
            &&& cfs.last().2 == "coupon+principal"@
            &&& forall|k: int|
                0 <= k < cfs.len() ==> date_lt(i.settlement_date.ymd(), (#[trigger] cfs[k]).0)
                    && (k < cfs.len() - 1 ==> cfs[k].2 == "coupon"@)
        }),
{
    let s = i.settlement_date.ymd();
    let m = i.maturity_date.ymd();
    lemma_coupon_dates(s, m, i.coupon_frequency);
    let dates = coupon_dates_spec(s, m, i.coupon_frequency);
    let cfs = bond_spec(i)->Ok_0.cashflows;
    let annual = i.face_value.mul_spec(i.coupon_rate).unwrap();
    let c = annual.div_spec(Dec::lit(i.coupon_frequency as int, 0)).unwrap();
    assert(Some(cfs) == cashflows_spec(dates, c, i.face_value));
    assert forall|k: int| 0 <= k < cfs.len() implies date_lt(s, (#[trigger] cfs[k]).0) && (k < cfs.len() - 1
        ==> cfs[k].2 == "coupon"@) by {
        assert(cfs[k].0 == dates[k]);
    }
    assert(cfs.last() == cfs[cfs.len() - 1]);
}

} // verus!
