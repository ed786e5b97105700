//! Financial red flag composite scoring.
//!
//! Combines financial signals into a composite 0-100 risk score across four
//! categories of at most 25 points each: earnings quality, growth quality,
//! financial health and governance.
use vstd::prelude::*;

use crate::dec::{group_dec, nat_digits, u32_to_string, Dec};
use crate::error::{FinError, FinResult};

verus! {

broadcast use group_dec;

pub struct RedFlagScoringInput {
    pub beneish_m_score: Option<Dec>,
    pub altman_z_score: Option<Dec>,
    pub piotroski_f_score: Option<u8>,
    pub cfo_to_net_income: Dec,
    pub revenue_growth: Dec,
    pub receivables_growth: Dec,
    pub inventory_growth: Dec,
    pub sga_to_revenue_change: Dec,
    pub debt_to_equity: Dec,
    pub interest_coverage: Dec,
    pub audit_opinion: String,
    pub auditor_change: bool,
    pub related_party_transactions: bool,
    pub restatement_history: bool,
}

pub struct RedFlag {
    pub category: String,
    pub flag: String,
    pub severity: String,
    pub points: Dec,
}

pub struct CategoryScores {
    pub earnings_quality: Dec,
    pub growth_quality: Dec,
    pub financial_health: Dec,
    pub governance: Dec,
}

pub struct RedFlagScoringOutput {
    pub composite_score: Dec,
    pub risk_level: String,
    pub flags: Vec<RedFlag>,
    pub category_scores: CategoryScores,
    pub total_flags: u32,
    pub critical_flags: u32,
}

// ---------------------------------------------------------------------------
// Specification
// ---------------------------------------------------------------------------

/// A flag as the text and points it carries.
pub type FlagView = (Seq<char>, Seq<char>, Seq<char>, Dec);

pub open spec fn flag_view(f: RedFlag) -> FlagView {
    (f.category@, f.flag@, f.severity@, f.points)
}

pub open spec fn views(v: Seq<RedFlag>) -> Seq<FlagView> {
    v.map_values(|f: RedFlag| flag_view(f))
}

pub open spec fn opinion_valid(op: Seq<char>) -> bool {
    op == "clean"@ || op == "qualified"@ || op == "adverse"@ || op == "disclaimer"@
}

pub open spec fn beneish_flagged(i: RedFlagScoringInput) -> bool {
    i.beneish_m_score matches Some(m) && m.gt_spec(Dec::lit(-178, 2))
}

pub open spec fn piotroski_flagged(i: RedFlagScoringInput) -> bool {
    i.piotroski_f_score matches Some(f) && f < 3
}

pub open spec fn altman_flagged(i: RedFlagScoringInput) -> bool {
    i.altman_z_score matches Some(z) && z.lt_spec(Dec::lit(181, 2))
}

pub open spec fn pts(c: bool, p: int) -> int {
    if c {
        p
    } else {
        0
    }
}

/// Points of the earnings-quality signals, before the cap.
pub open spec fn earnings_points(i: RedFlagScoringInput) -> int {
    pts(beneish_flagged(i), 15) + (if i.cfo_to_net_income.lt_spec(Dec::lit(0, 0)) {
        10int
    } else if i.cfo_to_net_income.lt_spec(Dec::lit(5, 1)) {
        5
    } else {
        0
    }) + pts(piotroski_flagged(i), 5)
}

/// Points of the growth-quality signals, before the cap.
pub open spec fn growth_points(i: RedFlagScoringInput) -> int {
    pts(i.receivables_growth.gt_spec(i.revenue_growth), 8) + pts(
        i.inventory_growth.gt_spec(i.revenue_growth),
        7,
    ) + pts(i.revenue_growth.gt_spec(Dec::lit(50, 2)), 5) + pts(
        i.sga_to_revenue_change.gt_spec(Dec::lit(0, 0)),
        5,
    )
}

/// Points of the financial-health signals, before the cap.
pub open spec fn health_points(i: RedFlagScoringInput) -> int {
    pts(altman_flagged(i), 15) + (if i.debt_to_equity.gt_spec(Dec::lit(5, 0)) {
        10int
    } else if i.debt_to_equity.gt_spec(Dec::lit(3, 0)) {
        5
    } else {
        0
    }) + pts(i.interest_coverage.lt_spec(Dec::lit(15, 1)), 5)
}

/// Points of the governance signals, before the cap.
pub open spec fn governance_points(i: RedFlagScoringInput) -> int {
    (if i.audit_opinion@ == "adverse"@ || i.audit_opinion@ == "disclaimer"@ {
        15int
    } else if i.audit_opinion@ == "qualified"@ {
        10
    } else {
        0
    }) + pts(i.auditor_change, 5) + pts(i.related_party_transactions, 5) + pts(
        i.restatement_history,
        10,
    )
}

pub open spec fn capped(p: int, max: int) -> int {
    if p > max {
        max
    } else {
        p
    }
}

/// The composite score: the capped categories added, capped at 100.
pub open spec fn composite_points(i: RedFlagScoringInput) -> int {
    capped(
        capped(earnings_points(i), 25) + capped(growth_points(i), 25) + capped(
            health_points(i),
            25,
        ) + capped(governance_points(i), 25),
        100,
    )
}

pub open spec fn risk_level_spec(score: int) -> Seq<char> {
    if score <= 15 {
        "Clean"@
    } else if score <= 30 {
        "Low Risk"@
    } else if score <= 50 {
        "Moderate Risk"@
    } else if score <= 75 {
        "High Risk"@
    } else {
        "Critical"@
    }
}

pub open spec fn one_flag(c: bool, cat: Seq<char>, msg: Seq<char>, sev: Seq<char>, p: int) -> Seq<
    FlagView,
> {
    if c {
        seq![(cat, msg, sev, Dec::lit(p, 0))]
    } else {
        seq![]
    }
}

pub open spec fn beneish_message(m: Dec) -> Seq<char> {
    "Beneish M-Score "@ + m.display_spec() + " exceeds -1.78 threshold (manipulation likely)"@
}

pub open spec fn piotroski_message(f: u8) -> Seq<char> {
    "Piotroski F-Score "@ + nat_digits(f as nat) + " indicates weak financial position"@
}

pub open spec fn altman_message(z: Dec) -> Seq<char> {
    "Altman Z-Score "@ + z.display_spec() + " in distress zone (below 1.81)"@
}

pub open spec fn flags_beneish(i: RedFlagScoringInput) -> Seq<FlagView> {
    one_flag(
        beneish_flagged(i),
        "Earnings Quality"@,
        beneish_message(i.beneish_m_score.unwrap()),
        "high"@,
        15,
    )
}

pub open spec fn flags_cfo(i: RedFlagScoringInput) -> Seq<FlagView> {
    if i.cfo_to_net_income.lt_spec(Dec::lit(0, 0)) {
        one_flag(
            true,
            "Earnings Quality"@,
            "Negative CFO-to-net-income ratio indicates poor cash conversion"@,
            "high"@,
            10,
        )
    } else {
        one_flag(
            i.cfo_to_net_income.lt_spec(Dec::lit(5, 1)),
            "Earnings Quality"@,
            "Low CFO-to-net-income ratio suggests accrual-heavy earnings"@,
            "medium"@,
            5,
        )
    }
}

pub open spec fn flags_piotroski(i: RedFlagScoringInput) -> Seq<FlagView> {
    one_flag(
        piotroski_flagged(i),
        "Earnings Quality"@,
        piotroski_message(i.piotroski_f_score.unwrap()),
        "medium"@,
        5,
    )
}

pub open spec fn flags_growth(i: RedFlagScoringInput) -> Seq<FlagView> {
    one_flag(
        i.receivables_growth.gt_spec(i.revenue_growth),
        "Growth Quality"@,
        "Receivables growing faster than revenue suggests aggressive recognition"@,
        "medium"@,
        8,
    ) + one_flag(
        i.inventory_growth.gt_spec(i.revenue_growth),
        "Growth Quality"@,
        "Inventory growing faster than revenue suggests demand weakness"@,
        "medium"@,
        7,
    ) + one_flag(
        i.revenue_growth.gt_spec(Dec::lit(50, 2)),
        "Growth Quality"@,
        "Revenue growth exceeds 50%, aggressive growth flag"@,
        "low"@,
        5,
    ) + one_flag(
        i.sga_to_revenue_change.gt_spec(Dec::lit(0, 0)),
        "Growth Quality"@,
        "SGA-to-revenue ratio increasing suggests declining efficiency"@,
        "low"@,
        5,
    )
}

pub open spec fn flags_altman(i: RedFlagScoringInput) -> Seq<FlagView> {
    one_flag(
        altman_flagged(i),
        "Financial Health"@,
        altman_message(i.altman_z_score.unwrap()),
        "high"@,
        15,
    )
}

pub open spec fn flags_leverage(i: RedFlagScoringInput) -> Seq<FlagView> {
    if i.debt_to_equity.gt_spec(Dec::lit(5, 0)) {
        one_flag(
            true,
            "Financial Health"@,
            "Debt-to-equity exceeds 5x, extremely leveraged"@,
            "high"@,
            10,
        )
    } else {
        one_flag(
            i.debt_to_equity.gt_spec(Dec::lit(3, 0)),
            "Financial Health"@,
            "Debt-to-equity exceeds 3x, highly leveraged"@,
            "medium"@,
            5,
        )
    }
}

pub open spec fn flags_coverage(i: RedFlagScoringInput) -> Seq<FlagView> {
    one_flag(
        i.interest_coverage.lt_spec(Dec::lit(15, 1)),
        "Financial Health"@,
        "Interest coverage below 1.5x, debt service at risk"@,
        "medium"@,
        5,
    )
}

pub open spec fn flags_opinion(i: RedFlagScoringInput) -> Seq<FlagView> {
    if i.audit_opinion@ == "adverse"@ {
        one_flag(true, "Governance"@, "Adverse audit opinion"@, "high"@, 15)
    } else if i.audit_opinion@ == "disclaimer"@ {
        one_flag(true, "Governance"@, "Disclaimer of opinion from auditor"@, "high"@, 15)
    } else {
        one_flag(
            i.audit_opinion@ == "qualified"@,
            "Governance"@,
            "Qualified audit opinion"@,
            "high"@,
            10,
        )
    }
}

pub open spec fn flags_conduct(i: RedFlagScoringInput) -> Seq<FlagView> {
    one_flag(i.auditor_change, "Governance"@, "Recent auditor change"@, "medium"@, 5) + one_flag(
        i.related_party_transactions,
        "Governance"@,
        "Material related-party transactions present"@,
        "medium"@,
        5,
    ) + one_flag(
        i.restatement_history,
        "Governance"@,
        "History of financial restatements"@,
        "high"@,
        10,
    )
}

/// The flags raised, in the order the signals are examined.
pub open spec fn expected_flags(i: RedFlagScoringInput) -> Seq<FlagView> {
    flags_beneish(i) + flags_cfo(i) + flags_piotroski(i) + flags_growth(i) + flags_altman(i)
        + flags_leverage(i) + flags_coverage(i) + flags_opinion(i) + flags_conduct(i)
}

/// Number of flags of severity "high".
pub open spec fn count_high(s: Seq<FlagView>) -> nat
    decreases s.len(),
{
    if s.len() == 0 {
        0
    } else {
        count_high(s.drop_last()) + (if s.last().2 == "high"@ {
            1nat
        } else {
            0
        })
    }
}

// ---------------------------------------------------------------------------
// Helpers
// ---------------------------------------------------------------------------

fn str_of(s: &str) -> (r: String)
    ensures
        r@ == s@,
{
    String::from_str(s)
}

/// Records a flag and returns its points.
fn add_flag(flags: &mut Vec<RedFlag>, cat: &str, msg: String, sev: &str, points: i64) -> (r: Dec)
    requires
        0 <= points <= 100,
    ensures
        r == Dec::lit(points as int, 0),
        views(final(flags)@) == views(old(flags)@).push(
            (cat@, msg@, sev@, Dec::lit(points as int, 0)),
        ),
{
    let p = Dec::from_int(points);
    flags.push(RedFlag { category: str_of(cat), flag: msg, severity: str_of(sev), points: p });
    proof {
        assert(views(final(flags)@) =~= views(old(flags)@).push(
            (cat@, msg@, sev@, Dec::lit(points as int, 0)),
        ));
    }
    p
}

/// Adds small whole-number points.
fn add_points(a: Dec, b: Dec) -> (r: Dec)
    requires
        a == Dec::lit(a.m(), 0),
        b == Dec::lit(b.m(), 0),
        0 <= a.m() <= 1000,
        0 <= b.m() <= 1000,
    ensures
        r == Dec::lit(a.m() + b.m(), 0),
{
    match a.add(&b) {
        Ok(v) => v,
        Err(_) => a,
    }
}

/// `val` capped at `max`.
fn cap(val: Dec, max: Dec) -> (r: Dec)
    ensures
        r == (if val.gt_spec(max) {
            max
        } else {
            val
        }),
{
    if val.gt(&max) {
        max
    } else {
        val
    }
}

proof fn lemma_int_order(a: int, b: int)
    requires
        -1000 <= a <= 1000,
        -1000 <= b <= 1000,
    ensures
        Dec::lit(a, 0).lt_spec(Dec::lit(b, 0)) <==> a < b,
        Dec::lit(a, 0).eq_spec(Dec::lit(b, 0)) <==> a == b,
        Dec::lit(b, 0).lt_spec(Dec::lit(a, 0)) <==> b < a,
{
    Dec::lemma_order_same_scale(Dec::lit(a, 0), Dec::lit(b, 0));
    Dec::lemma_order_same_scale(Dec::lit(b, 0), Dec::lit(a, 0));
}

fn concat3(a: &str, b: String, c: &str) -> (r: String)
    ensures
        r@ == a@ + b@ + c@,
{
    let s = String::from_str(a);
    let s = s.concat(b.as_str());
    s.concat(c)
}

// ---------------------------------------------------------------------------
// Scoring sections
// ---------------------------------------------------------------------------

/// Earnings-quality signals: records their flags and returns the capped points.
fn score_earnings(input: &RedFlagScoringInput, flags: &mut Vec<RedFlag>) -> (r: Dec)
    ensures
        views(final(flags)@) == views(old(flags)@) + flags_beneish(*input) + flags_cfo(*input)
            + flags_piotroski(*input),
        r == Dec::lit(capped(earnings_points(*input), 25), 0),
{
    let ghost i = *input;
    let ghost v0 = views(flags@);
    let mut eq = Dec::zero();
    if let Some(m) = input.beneish_m_score {
        if m.gt(&Dec::new(-178, 2)) {
            let msg = concat3(
                "Beneish M-Score ",
                m.to_string(),
                " exceeds -1.78 threshold (manipulation likely)",
            );
            let p = add_flag(flags, "Earnings Quality", msg, "high", 15);
            eq = add_points(eq, p);
        }
    }
    proof {
        assert(views(flags@) =~= v0 + flags_beneish(i));
    }
    if input.cfo_to_net_income.lt(&Dec::zero()) {
        let p = add_flag(
            flags,
            "Earnings Quality",
            str_of("Negative CFO-to-net-income ratio indicates poor cash conversion"),
            "high",
            10,
        );
        eq = add_points(eq, p);
    } else if input.cfo_to_net_income.lt(&Dec::new(5, 1)) {
        let p = add_flag(
            flags,
            "Earnings Quality",
            str_of("Low CFO-to-net-income ratio suggests accrual-heavy earnings"),
            "medium",
            5,
        );
        eq = add_points(eq, p);
    }
    proof {
        assert(views(flags@) =~= v0 + flags_beneish(i) + flags_cfo(i));
    }
    if let Some(f) = input.piotroski_f_score {
        if f < 3 {
            let msg = concat3(
                "Piotroski F-Score ",
                u32_to_string(f as u32),
                " indicates weak financial position",
            );
            let p = add_flag(flags, "Earnings Quality", msg, "medium", 5);
            eq = add_points(eq, p);
        }
    }
    proof {
        assert(views(flags@) =~= v0 + flags_beneish(i) + flags_cfo(i) + flags_piotroski(i));
        assert(eq == Dec::lit(earnings_points(i), 0));
        lemma_int_order(eq.m(), 25);
    }
    cap(eq, Dec::new(25, 0))
}

/// Growth-quality signals: records their flags and returns the capped points.
fn score_growth(input: &RedFlagScoringInput, flags: &mut Vec<RedFlag>) -> (r: Dec)
    ensures
        views(final(flags)@) == views(old(flags)@) + flags_growth(*input),
        r == Dec::lit(capped(growth_points(*input), 25), 0),
{
    let ghost i = *input;
    let ghost v0 = views(flags@);
    let mut gq = Dec::zero();
    if input.receivables_growth.gt(&input.revenue_growth) {
        let p = add_flag(
            flags,
            "Growth Quality",
            str_of("Receivables growing faster than revenue suggests aggressive recognition"),
            "medium",
            8,
        );
        gq = add_points(gq, p);
    }
    if input.inventory_growth.gt(&input.revenue_growth) {
        let p = add_flag(
            flags,
            "Growth Quality",
            str_of("Inventory growing faster than revenue suggests demand weakness"),
            "medium",
            7,
        );
        gq = add_points(gq, p);
    }
    if input.revenue_growth.gt(&Dec::new(50, 2)) {
        let p = add_flag(
            flags,
            "Growth Quality",
            str_of("Revenue growth exceeds 50%, aggressive growth flag"),
            "low",
            5,
        );
        gq = add_points(gq, p);
    }
    if input.sga_to_revenue_change.gt(&Dec::zero()) {
        let p = add_flag(
            flags,
            "Growth Quality",
            str_of("SGA-to-revenue ratio increasing suggests declining efficiency"),
            "low",
            5,
        );
        gq = add_points(gq, p);
    }
    proof {
        assert(views(flags@) =~= v0 + flags_growth(i));
        assert(gq == Dec::lit(growth_points(i), 0));
        lemma_int_order(gq.m(), 25);
    }
    cap(gq, Dec::new(25, 0))
}

/// Financial-health signals: records their flags and returns the capped points.
fn score_health(input: &RedFlagScoringInput, flags: &mut Vec<RedFlag>) -> (r: Dec)
    ensures
        views(final(flags)@) == views(old(flags)@) + flags_altman(*input) + flags_leverage(*input)
            + flags_coverage(*input),
        r == Dec::lit(capped(health_points(*input), 25), 0),
{
    let ghost i = *input;
    let ghost v0 = views(flags@);
    let mut fh = Dec::zero();
    if let Some(z) = input.altman_z_score {
        if z.lt(&Dec::new(181, 2)) {
            let msg = concat3("Altman Z-Score ", z.to_string(), " in distress zone (below 1.81)");
            let p = add_flag(flags, "Financial Health", msg, "high", 15);
            fh = add_points(fh, p);
        }
    }
    proof {
        assert(views(flags@) =~= v0 + flags_altman(i));
    }
    if input.debt_to_equity.gt(&Dec::new(5, 0)) {
        let p = add_flag(
            flags,
            "Financial Health",
            str_of("Debt-to-equity exceeds 5x, extremely leveraged"),
            "high",
            10,
        );
        fh = add_points(fh, p);
    } else if input.debt_to_equity.gt(&Dec::new(3, 0)) {
        let p = add_flag(
            flags,
            "Financial Health",
            str_of("Debt-to-equity exceeds 3x, highly leveraged"),
            "medium",
            5,
        );
        fh = add_points(fh, p);
    }
    proof {
        assert(views(flags@) =~= v0 + flags_altman(i) + flags_leverage(i));
    }
    if input.interest_coverage.lt(&Dec::new(15, 1)) {
        let p = add_flag(
            flags,
            "Financial Health",
            str_of("Interest coverage below 1.5x, debt service at risk"),
            "medium",
            5,
        );
        fh = add_points(fh, p);
    }
    proof {
        assert(views(flags@) =~= v0 + flags_altman(i) + flags_leverage(i) + flags_coverage(i));
        assert(fh == Dec::lit(health_points(i), 0));
        lemma_int_order(fh.m(), 25);
    }
    cap(fh, Dec::new(25, 0))
}

/// Governance signals: records their flags and returns the capped points.
fn score_governance(
    input: &RedFlagScoringInput,
    is_adverse: bool,
    is_disclaimer: bool,
    is_qualified: bool,
    flags: &mut Vec<RedFlag>,
) -> (r: Dec)
    requires
        is_adverse == (input.audit_opinion@ == "adverse"@),
        is_disclaimer == (input.audit_opinion@ == "disclaimer"@),
        is_qualified == (input.audit_opinion@ == "qualified"@),
    ensures
        views(final(flags)@) == views(old(flags)@) + flags_opinion(*input) + flags_conduct(*input),
        r == Dec::lit(capped(governance_points(*input), 25), 0),
{
    let ghost i = *input;
    let ghost v0 = views(flags@);
    let mut gov = Dec::zero();
    if is_adverse || is_disclaimer {
        let label = if is_adverse {
            str_of("Adverse audit opinion")
        } else {
            str_of("Disclaimer of opinion from auditor")
        };
        let p = add_flag(flags, "Governance", label, "high", 15);
        gov = add_points(gov, p);
    } else if is_qualified {
        let p = add_flag(flags, "Governance", str_of("Qualified audit opinion"), "high", 10);
        gov = add_points(gov, p);
    }
    proof {
        assert(views(flags@) =~= v0 + flags_opinion(i));
    }
    if input.auditor_change {
        let p = add_flag(flags, "Governance", str_of("Recent auditor change"), "medium", 5);
        gov = add_points(gov, p);
    }
    if input.related_party_transactions {
        let p = add_flag(
            flags,
            "Governance",
            str_of("Material related-party transactions present"),
            "medium",
            5,
        );
        gov = add_points(gov, p);
    }
    if input.restatement_history {
        let p = add_flag(
            flags,
            "Governance",
            str_of("History of financial restatements"),
            "high",
            10,
        );
        gov = add_points(gov, p);
    }
    proof {
        assert(views(flags@) =~= v0 + flags_opinion(i) + flags_conduct(i));
        assert(gov == Dec::lit(governance_points(i), 0));
        lemma_int_order(gov.m(), 25);
    }
    cap(gov, Dec::new(25, 0))
}

/// The risk band of a composite score.
fn risk_level(c: Dec) -> (r: String)
    requires
        c == Dec::lit(c.m(), 0),
        0 <= c.m() <= 100,
    ensures
        r@ == risk_level_spec(c.m()),
{
    proof {
        lemma_int_order(c.m(), 15);
        lemma_int_order(c.m(), 30);
        lemma_int_order(c.m(), 50);
        lemma_int_order(c.m(), 75);
    }
    if c.le(&Dec::new(15, 0)) {
        str_of("Clean")
    } else if c.le(&Dec::new(30, 0)) {
        str_of("Low Risk")
    } else if c.le(&Dec::new(50, 0)) {
        str_of("Moderate Risk")
    } else if c.le(&Dec::new(75, 0)) {
        str_of("High Risk")
    } else {
        str_of("Critical")
    }
}

/// The number of flags of severity "high".
fn count_critical(flags: &Vec<RedFlag>) -> (r: u32)
    requires
        flags@.len() <= 100,
    ensures
        r == count_high(views(flags@)),
{
    let mut critical_flags: u32 = 0;
    let mut k: usize = 0;
    while k < flags.len()
        invariant
            k <= flags@.len(),
            flags@.len() <= 100,
            critical_flags <= k,
            critical_flags == count_high(views(flags@).take(k as int)),
        decreases flags@.len() - k,
    {
        let ghost vs = views(flags@);
        proof {
            assert(vs.take(k + 1).drop_last() =~= vs.take(k as int));
        }
        if flags[k].severity == str_of("high") {
            critical_flags = critical_flags + 1;
        }
        k = k + 1;
    }
    proof {
        let vs = views(flags@);
        assert(vs.take(flags@.len() as int) =~= vs);
    }
    critical_flags
}

// ---------------------------------------------------------------------------
// Core function
// ---------------------------------------------------------------------------

/// Calculate the financial red flag composite score.
///
/// Fails with `InvalidInput` exactly when the audit opinion is not one of
/// "clean", "qualified", "adverse" or "disclaimer".
#[verifier::rlimit(60)]
pub fn calculate_red_flag_scoring(input: &RedFlagScoringInput) -> (r: FinResult<
    RedFlagScoringOutput,
>)
    ensures
        r is Err <==> !opinion_valid(input.audit_opinion@),
        r matches Err(e) ==> e matches FinError::InvalidInput { field, .. } && field@
            == "audit_opinion"@,
        r matches Ok(out) ==> {
            &&& out.category_scores.earnings_quality == Dec::lit(
                capped(earnings_points(*input), 25),
                0,
            )
            &&& out.category_scores.growth_quality == Dec::lit(capped(growth_points(*input), 25), 0)
            &&& out.category_scores.financial_health == Dec::lit(
                capped(health_points(*input), 25),
                0,
            )
            &&& out.category_scores.governance == Dec::lit(
                capped(governance_points(*input), 25),
                0,
            )
            &&& out.composite_score == Dec::lit(composite_points(*input), 0)
            &&& out.risk_level@ == risk_level_spec(composite_points(*input))
            &&& views(out.flags@) == expected_flags(*input)
            &&& out.total_flags == out.flags@.len()
            &&& out.critical_flags == count_high(expected_flags(*input))
        },
{
    let op = &input.audit_opinion;
    let is_clean = *op == str_of("clean");
    let is_qualified = *op == str_of("qualified");
    let is_adverse = *op == str_of("adverse");
    let is_disclaimer = *op == str_of("disclaimer");
    if !(is_clean || is_qualified || is_adverse || is_disclaimer) {
        return Err(
            FinError::InvalidInput {
                field: str_of("audit_opinion"),
                reason: str_of("Must be 'clean', 'qualified', 'adverse', or 'disclaimer'."),
            },
        );
    }
    let ghost i = *input;
    let mut flags: Vec<RedFlag> = Vec::new();
    proof {
        assert(views(flags@) =~= Seq::<FlagView>::empty());
    }
    let eq = score_earnings(input, &mut flags);
    let gq = score_growth(input, &mut flags);
    let fh = score_health(input, &mut flags);
    let gov = score_governance(input, is_adverse, is_disclaimer, is_qualified, &mut flags);
    proof {
        assert(views(flags@) =~= expected_flags(i));
    }

    // --- Composite ---
    let total = add_points(add_points(add_points(eq, gq), fh), gov);
    proof {
        lemma_int_order(total.m(), 100);
    }
    let composite_score = cap(total, Dec::new(100, 0));
    let risk_level = risk_level(composite_score);
    proof {
        assert(flags@.len() == views(flags@).len());
        lemma_expected_len(i);
    }
    let total_flags = flags.len() as u32;
    let critical_flags = count_critical(&flags);

    Ok(
        RedFlagScoringOutput {
            composite_score,
            risk_level,
            flags,
            category_scores: CategoryScores {
                earnings_quality: eq,
                growth_quality: gq,
                financial_health: fh,
                governance: gov,
            },
            total_flags,
            critical_flags,
        },
    )
}

proof fn lemma_expected_len(i: RedFlagScoringInput)
    ensures
        expected_flags(i).len() <= 15,
{
}

/// The composite risk score lies between 0 and 100, and each of the four category scores
/// between 0 and 25.
pub proof fn lemma_scores_in_range(i: RedFlagScoringInput)
    ensures
        0 <= capped(earnings_points(i), 25) <= 25,
        0 <= capped(growth_points(i), 25) <= 25,
        0 <= capped(health_points(i), 25) <= 25,
        0 <= capped(governance_points(i), 25) <= 25,
        0 <= composite_points(i) <= 100,
{
}

/// The points of the flags of category `c`, added up.
pub open spec fn cat_points(s: Seq<FlagView>, c: Seq<char>) -> int
    decreases s.len(),
{
    if s.len() == 0 {
        0
    } else {
        cat_points(s.drop_last(), c) + if s.last().0 == c {
            s.last().3.m()
        } else {
            0
        }
    }
}

proof fn lemma_cat_points_concat(a: Seq<FlagView>, b: Seq<FlagView>, c: Seq<char>)
    ensures
        cat_points(a + b, c) == cat_points(a, c) + cat_points(b, c),
    decreases b.len(),
{
    if b.len() > 0 {
        assert((a + b).drop_last() =~= a + b.drop_last());
        lemma_cat_points_concat(a, b.drop_last(), c);
    } else {
        assert(a + b =~= a);
    }
}

proof fn lemma_one_flag_points(cond: bool, cat: Seq<char>, msg: Seq<char>, sev: Seq<char>, p: int, c: Seq<char>)
    requires
        0 <= p <= 100,
    ensures
        cat_points(one_flag(cond, cat, msg, sev, p), c) == if cond && cat == c {
            p
        } else {
            0
        },
{
    let s = one_flag(cond, cat, msg, sev, p);
    if cond {
        assert(s.len() == 1);
        assert(s.drop_last() =~= Seq::<FlagView>::empty());
        assert(cat_points(s.drop_last(), c) == 0);
        assert(s.last() == (cat, msg, sev, Dec::lit(p, 0)));
        assert(Dec::lit(p, 0).m() == p);
    } else {
        assert(s.len() == 0);
    }
}

/// The four category names are distinct.
proof fn lemma_categories_distinct()
    ensures
        "Earnings Quality"@ != "Growth Quality"@,
        "Earnings Quality"@ != "Financial Health"@,
        "Earnings Quality"@ != "Governance"@,
        "Growth Quality"@ != "Financial Health"@,
        "Growth Quality"@ != "Governance"@,
        "Financial Health"@ != "Governance"@,
{
    reveal_strlit("Earnings Quality");
    reveal_strlit("Growth Quality");
    reveal_strlit("Financial Health");
    reveal_strlit("Governance");
    assert("Earnings Quality"@[0] != "Growth Quality"@[0]);
    assert("Earnings Quality"@[0] != "Financial Health"@[0]);
    assert("Earnings Quality"@[0] != "Governance"@[0]);
    assert("Growth Quality"@[0] != "Financial Health"@[0]);
    assert("Growth Quality"@.len() != "Governance"@.len());
    assert("Financial Health"@[0] != "Governance"@[0]);
}

/// The points an earnings-quality signal group gives category `c`.
pub open spec fn only(c: Seq<char>, cat: Seq<char>, p: int) -> int {
    if c == cat {
        p
    } else {
        0
    }
}

proof fn lemma_piece_beneish(i: RedFlagScoringInput, c: Seq<char>)
    ensures
        cat_points(flags_beneish(i), c) == only(c, "Earnings Quality"@, pts(beneish_flagged(i), 15)),
{
    lemma_one_flag_points(beneish_flagged(i), "Earnings Quality"@, beneish_message(i.beneish_m_score.unwrap()), "high"@, 15, c);
}

proof fn lemma_piece_cfo(i: RedFlagScoringInput, c: Seq<char>)
    ensures
        cat_points(flags_cfo(i), c) == only(
            c,
            "Earnings Quality"@,
            if i.cfo_to_net_income.lt_spec(Dec::lit(0, 0)) {
                10int
            } else if i.cfo_to_net_income.lt_spec(Dec::lit(5, 1)) {
                5
            } else {
                0
            },
        ),
{
    lemma_one_flag_points(true, "Earnings Quality"@, "Negative CFO-to-net-income ratio indicates poor cash conversion"@, "high"@, 10, c);
    lemma_one_flag_points(i.cfo_to_net_income.lt_spec(Dec::lit(5, 1)), "Earnings Quality"@, "Low CFO-to-net-income ratio suggests accrual-heavy earnings"@, "medium"@, 5, c);
}

proof fn lemma_piece_piotroski(i: RedFlagScoringInput, c: Seq<char>)
    ensures
        cat_points(flags_piotroski(i), c) == only(c, "Earnings Quality"@, pts(piotroski_flagged(i), 5)),
{
    lemma_one_flag_points(piotroski_flagged(i), "Earnings Quality"@, piotroski_message(i.piotroski_f_score.unwrap()), "medium"@, 5, c);
}

proof fn lemma_piece_growth(i: RedFlagScoringInput, c: Seq<char>)
    ensures
        cat_points(flags_growth(i), c) == only(c, "Growth Quality"@, growth_points(i)),
{
    let g1 = one_flag(i.receivables_growth.gt_spec(i.revenue_growth), "Growth Quality"@, "Receivables growing faster than revenue suggests aggressive recognition"@, "medium"@, 8);
    let g2 = one_flag(i.inventory_growth.gt_spec(i.revenue_growth), "Growth Quality"@, "Inventory growing faster than revenue suggests demand weakness"@, "medium"@, 7);
    let g3 = one_flag(i.revenue_growth.gt_spec(Dec::lit(50, 2)), "Growth Quality"@, "Revenue growth exceeds 50%, aggressive growth flag"@, "low"@, 5);
    let g4 = one_flag(i.sga_to_revenue_change.gt_spec(Dec::lit(0, 0)), "Growth Quality"@, "SGA-to-revenue ratio increasing suggests declining efficiency"@, "low"@, 5);
    lemma_cat_points_concat(g1, g2, c);
    lemma_cat_points_concat(g1 + g2, g3, c);
    lemma_cat_points_concat(g1 + g2 + g3, g4, c);
    lemma_one_flag_points(i.receivables_growth.gt_spec(i.revenue_growth), "Growth Quality"@, "Receivables growing faster than revenue suggests aggressive recognition"@, "medium"@, 8, c);
    lemma_one_flag_points(i.inventory_growth.gt_spec(i.revenue_growth), "Growth Quality"@, "Inventory growing faster than revenue suggests demand weakness"@, "medium"@, 7, c);
    lemma_one_flag_points(i.revenue_growth.gt_spec(Dec::lit(50, 2)), "Growth Quality"@, "Revenue growth exceeds 50%, aggressive growth flag"@, "low"@, 5, c);
    lemma_one_flag_points(i.sga_to_revenue_change.gt_spec(Dec::lit(0, 0)), "Growth Quality"@, "SGA-to-revenue ratio increasing suggests declining efficiency"@, "low"@, 5, c);
}

proof fn lemma_piece_altman(i: RedFlagScoringInput, c: Seq<char>)
    ensures
        cat_points(flags_altman(i), c) == only(c, "Financial Health"@, pts(altman_flagged(i), 15)),
{
    lemma_one_flag_points(altman_flagged(i), "Financial Health"@, altman_message(i.altman_z_score.unwrap()), "high"@, 15, c);
}

proof fn lemma_piece_leverage(i: RedFlagScoringInput, c: Seq<char>)
    ensures
        cat_points(flags_leverage(i), c) == only(
            c,
            "Financial Health"@,
            if i.debt_to_equity.gt_spec(Dec::lit(5, 0)) {
                10int
            } else if i.debt_to_equity.gt_spec(Dec::lit(3, 0)) {
                5
            } else {
                0
            },
        ),
{
    lemma_one_flag_points(true, "Financial Health"@, "Debt-to-equity exceeds 5x, extremely leveraged"@, "high"@, 10, c);
    lemma_one_flag_points(i.debt_to_equity.gt_spec(Dec::lit(3, 0)), "Financial Health"@, "Debt-to-equity exceeds 3x, highly leveraged"@, "medium"@, 5, c);
}

proof fn lemma_piece_coverage(i: RedFlagScoringInput, c: Seq<char>)
    ensures
        cat_points(flags_coverage(i), c) == only(c, "Financial Health"@, pts(i.interest_coverage.lt_spec(Dec::lit(15, 1)), 5)),
{
    lemma_one_flag_points(i.interest_coverage.lt_spec(Dec::lit(15, 1)), "Financial Health"@, "Interest coverage below 1.5x, debt service at risk"@, "medium"@, 5, c);
}

proof fn lemma_piece_opinion(i: RedFlagScoringInput, c: Seq<char>)
    ensures
        cat_points(flags_opinion(i), c) == only(
            c,
            "Governance"@,
            if i.audit_opinion@ == "adverse"@ || i.audit_opinion@ == "disclaimer"@ {
                15int
            } else if i.audit_opinion@ == "qualified"@ {
                10
            } else {
                0
            },
        ),
{
    lemma_one_flag_points(true, "Governance"@, "Adverse audit opinion"@, "high"@, 15, c);
    lemma_one_flag_points(true, "Governance"@, "Disclaimer of opinion from auditor"@, "high"@, 15, c);
    lemma_one_flag_points(i.audit_opinion@ == "qualified"@, "Governance"@, "Qualified audit opinion"@, "high"@, 10, c);
}

proof fn lemma_piece_conduct(i: RedFlagScoringInput, c: Seq<char>)
    ensures
        cat_points(flags_conduct(i), c) == only(
            c,
            "Governance"@,
            pts(i.auditor_change, 5) + pts(i.related_party_transactions, 5) + pts(i.restatement_history, 10),
        ),
{
    let k1 = one_flag(i.auditor_change, "Governance"@, "Recent auditor change"@, "medium"@, 5);
    let k2 = one_flag(i.related_party_transactions, "Governance"@, "Material related-party transactions present"@, "medium"@, 5);
    let k3 = one_flag(i.restatement_history, "Governance"@, "History of financial restatements"@, "high"@, 10);
    lemma_cat_points_concat(k1, k2, c);
    lemma_cat_points_concat(k1 + k2, k3, c);
    lemma_one_flag_points(i.auditor_change, "Governance"@, "Recent auditor change"@, "medium"@, 5, c);
    lemma_one_flag_points(i.related_party_transactions, "Governance"@, "Material related-party transactions present"@, "medium"@, 5, c);
    lemma_one_flag_points(i.restatement_history, "Governance"@, "History of financial restatements"@, "high"@, 10, c);
}

#[verifier::spinoff_prover]
proof fn lemma_points_by_category(i: RedFlagScoringInput, c: Seq<char>)
    ensures
        cat_points(expected_flags(i), c) == only(c, "Earnings Quality"@, earnings_points(i)) + only(
            c,
            "Growth Quality"@,
            growth_points(i),
        ) + only(c, "Financial Health"@, health_points(i)) + only(c, "Governance"@, governance_points(i)),
{
    let b = flags_beneish(i);
    let f = flags_cfo(i);
    let p = flags_piotroski(i);
    let g = flags_growth(i);
    let a = flags_altman(i);
    let l = flags_leverage(i);
    let v = flags_coverage(i);
    let o = flags_opinion(i);
    let k = flags_conduct(i);
    lemma_cat_points_concat(b, f, c);
    lemma_cat_points_concat(b + f, p, c);
    lemma_cat_points_concat(b + f + p, g, c);
    lemma_cat_points_concat(b + f + p + g, a, c);
    lemma_cat_points_concat(b + f + p + g + a, l, c);
    lemma_cat_points_concat(b + f + p + g + a + l, v, c);
    lemma_cat_points_concat(b + f + p + g + a + l + v, o, c);
    lemma_cat_points_concat(b + f + p + g + a + l + v + o, k, c);
    lemma_piece_beneish(i, c);
    lemma_piece_cfo(i, c);
    lemma_piece_piotroski(i, c);
    lemma_piece_growth(i, c);
    lemma_piece_altman(i, c);
    lemma_piece_leverage(i, c);
    lemma_piece_coverage(i, c);
    lemma_piece_opinion(i, c);
    lemma_piece_conduct(i, c);
}

/// Each category score is the points of the flags listed in that category, added up and
/// capped at 25; the composite is the four scores added up, capped at 100.
pub proof fn lemma_scores_from_flags(i: RedFlagScoringInput)
    ensures
        capped(cat_points(expected_flags(i), "Earnings Quality"@), 25) == capped(earnings_points(i), 25),
        capped(cat_points(expected_flags(i), "Growth Quality"@), 25) == capped(growth_points(i), 25),
        capped(cat_points(expected_flags(i), "Financial Health"@), 25) == capped(health_points(i), 25),
        capped(cat_points(expected_flags(i), "Governance"@), 25) == capped(governance_points(i), 25),
        composite_points(i) == capped(
            capped(cat_points(expected_flags(i), "Earnings Quality"@), 25) + capped(
                cat_points(expected_flags(i), "Growth Quality"@),
                25,
            ) + capped(cat_points(expected_flags(i), "Financial Health"@), 25) + capped(
                cat_points(expected_flags(i), "Governance"@),
                25,
            ),
            100,
        ),
{
    lemma_categories_distinct();
    lemma_points_by_category(i, "Earnings Quality"@);
    lemma_points_by_category(i, "Growth Quality"@);
    lemma_points_by_category(i, "Financial Health"@);
    lemma_points_by_category(i, "Governance"@);
}

} // verus!
