//! Canonical data model of the ingested store.
//!
//! Monetary and ratio-valued indicators are carried as scaled integers so
//! that every computation over them is exact: indicator inputs are in
//! thousandths of their natural unit (percent points, utilization points),
//! and a health score is in units of `1 / SCORE_UNIT` of a point on the
//! 0..=100 scale.

use vstd::prelude::*;

verus! {

/// Operating status of a registered business.
#[derive(Debug, Clone, Copy, PartialEq, Eq, Structural)]
pub enum BizStatus {
    Active,
    Suspended,
    Closed,
}

impl Default for BizStatus {
    fn default() -> (r: Self)
        ensures
            r == BizStatus::Active,
    {
        BizStatus::Active
    }
}

/// Stock-market listing segment.
#[derive(Debug, Clone, Copy, PartialEq, Eq, Structural)]
pub enum MarketType {
    KOSPI,
    KOSDAQ,
    KONEX,
}

/// Category of an industrial complex.
#[derive(Debug, Clone, Copy, PartialEq, Eq, Structural)]
pub enum ComplexType {
    National,
    General,
    UrbanHighTech,
    Agro,
}

/// A company row in the canonical store, keyed by the canonical ten-digit
/// business-registration number.
#[derive(Debug, Clone, PartialEq)]
pub struct Company {
    pub biz_no: String,
    pub name: String,
    pub biz_status: BizStatus,
    pub industry_code: Option<String>,
    pub bjd_code: Option<String>,
}

/// One employment-series observation, keyed by `(biz_no, year_month)` with
/// `year_month` in `"YYYY-MM"` form.  At most one point exists per key; a
/// re-ingested point fully replaces the prior value.
#[derive(Debug, Clone, PartialEq)]
pub struct EmploymentPoint {
    pub biz_no: String,
    pub year_month: String,
    pub employee_count: i32,
    pub new_hires: i32,
    pub departures: i32,
}

/// One financial-statement row for a company and fiscal period.
#[derive(Debug, Clone, PartialEq)]
pub struct Financial {
    pub biz_no: String,
    pub fiscal_year: i32,
    pub quarter: i16,
    pub revenue: Option<i64>,
    pub operating_income: Option<i64>,
    pub net_income: Option<i64>,
    pub total_assets: Option<i64>,
    pub total_equity: Option<i64>,
    pub total_debt: Option<i64>,
}

/// The health score is reported in units of `1 / SCORE_UNIT` of a point,
/// so the full 0..=100 range maps to `0..=100 * SCORE_UNIT`.
pub const SCORE_UNIT: u32 = 100000;

/// Indicator inputs are in thousandths of their natural unit: an
/// employment growth of 5 percent arrives as `5000`.
pub const INDICATOR_UNIT: i64 = 1000;

/// Regional wellness metric for one region and month, with the five
/// contributing sub-indicators (each in thousandths, absent when the
/// underlying aggregate was unavailable).
#[derive(Debug, Clone, PartialEq)]
pub struct RegionHealth {
    pub region_code: String,
    pub year_month: String,
    pub company_count: i32,
    pub employee_count: i32,
    pub new_biz_count: i32,
    pub closed_biz_count: i32,
    pub employment_growth: Option<i64>,
    pub new_biz_rate: Option<i64>,
    pub closure_rate: Option<i64>,
    pub avg_revenue_growth: Option<i64>,
    pub complex_utilization: Option<i64>,
    pub health_score: u32,
}

/// `v` forced into `[lo, hi]`.
pub open spec fn clamp_int(v: int, lo: int, hi: int) -> int {
    if v < lo {
        lo
    } else if v > hi {
        hi
    } else {
        v
    }
}

/// Offset of `v` within `[lo, hi]` after clamping: ranges over
/// `0..=hi - lo`, the exact-integer form of `clamp((v-lo)/(hi-lo), 0, 1)`.
pub open spec fn span_num(v: int, lo: int, hi: int) -> int {
    clamp_int(v, lo, hi) - lo
}

/// The health score in units of `1 / SCORE_UNIT` of a point:
/// `(0.30*employment + 0.25*newBiz + 0.20*(1-closure) + 0.15*revenue
///   + 0.10*utilization) * 100`, with each indicator linearly normalized
/// over its fixed bounds (employment growth over [-10,10] percent, new
/// business rate over [0,20], closure rate over [0,20] and inverted,
/// revenue growth over [-20,30], utilization over [0,100]).  Inputs are in
/// thousandths; every weight is exact in this scale.
pub open spec fn spec_health_score(eg: int, nb: int, cr: int, rg: int, cu: int) -> int {
    150 * span_num(eg, -10000, 10000) + 125 * span_num(nb, 0, 20000) + 100 * (20000 - span_num(
        cr,
        0,
        20000,
    )) + 30 * span_num(rg, -20000, 30000) + 10 * span_num(cu, 0, 100000)
}

/// The score stays on the 0..=100 point scale for every input.
pub proof fn lemma_health_score_bounded(eg: int, nb: int, cr: int, rg: int, cu: int)
    ensures
        0 <= spec_health_score(eg, nb, cr, rg, cu) <= 100 * SCORE_UNIT,
{
}

/// Clamped offset of `v` within `[lo, hi]`, as the executable form.
fn span_component(v: i64, lo: i64, hi: i64) -> (r: i64)
    requires
        -1000000 <= lo < hi <= 1000000,
    ensures
        r == span_num(v as int, lo as int, hi as int),
        0 <= r <= hi - lo,
{
    let c = if v < lo {
        lo
    } else if v > hi {
        hi
    } else {
        v
    };
    c - lo
}

impl RegionHealth {
    /// Weighted-normalization health score from the five indicators, each
    /// in thousandths of its natural unit.  Total over all inputs:
    /// out-of-bound values are handled solely by the clamp.
    pub fn calculate_score(
        employment_growth: i64,
        new_biz_rate: i64,
        closure_rate: i64,
        avg_revenue_growth: i64,
        complex_utilization: i64,
    ) -> (score: u32)
        ensures
            score == spec_health_score(
                employment_growth as int,
                new_biz_rate as int,
                closure_rate as int,
                avg_revenue_growth as int,
                complex_utilization as int,
            ),
            score <= 100 * SCORE_UNIT,
    {
        let eg = span_component(employment_growth, -10000, 10000);
        let nb = span_component(new_biz_rate, 0, 20000);
        let cr = span_component(closure_rate, 0, 20000);
        let rg = span_component(avg_revenue_growth, -20000, 30000);
        let cu = span_component(complex_utilization, 0, 100000);
        let total: i64 = 150 * eg + 125 * nb + 100 * (20000 - cr) + 30 * rg + 10 * cu;
        total as u32
    }
}

} // verus!
