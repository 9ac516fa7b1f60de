//! Regional health score calculator.
//!
//! A thin facade over the scoring rule on `RegionHealth`: one call per
//! region, or a batch over `(region_code, indicators...)` tuples.  Inputs
//! are indicators in thousandths of their natural unit; the result is in
//! units of `1 / SCORE_UNIT` of a point (see `crate::models`).

use vstd::prelude::*;

use crate::models::{spec_health_score, RegionHealth, SCORE_UNIT};

verus! {

/// Deterministic weighted-normalization scoring over pre-aggregated
/// indicator values.
pub struct HealthScoreCalculator;

impl HealthScoreCalculator {
    /// Health score from employment, business, financial and complex
    /// indicators, each in thousandths of its natural unit.
    pub fn calculate(
        employment_growth: i64,
        new_biz_rate: i64,
        closure_rate: i64,
        avg_revenue_growth: i64,
        complex_utilization: i64,
    ) -> (score: u32)
        ensures
            score == spec_health_score(
                employment_growth as int,
                new_biz_rate as int,
                closure_rate as int,
                avg_revenue_growth as int,
                complex_utilization as int,
            ),
            score <= 100 * SCORE_UNIT,
    {
        RegionHealth::calculate_score(
            employment_growth,
            new_biz_rate,
            closure_rate,
            avg_revenue_growth,
            complex_utilization,
        )
    }

    /// Score several regions at once; the output preserves the input
    /// order and pairs each region code with its score.
    pub fn calculate_batch(regions: &Vec<(String, i64, i64, i64, i64, i64)>) -> (scores: Vec<
        (String, u32),
    >)
        ensures
            scores@.len() == regions@.len(),
            forall|i: int|
                0 <= i < regions@.len() ==> {
                    let (code, eg, nb, cr, rg, cu) = #[trigger] regions@[i];
                    scores@[i].0@ == code@ && scores@[i].1 == spec_health_score(
                        eg as int,
                        nb as int,
                        cr as int,
                        rg as int,
                        cu as int,
                    )
                },
    {
        let mut scores: Vec<(String, u32)> = Vec::new();
        let mut i: usize = 0;
        while i < regions.len()
            invariant
                i <= regions@.len(),
                scores@.len() == i,
                forall|j: int|
                    0 <= j < i ==> {
                        let (code, eg, nb, cr, rg, cu) = #[trigger] regions@[j];
                        scores@[j].0@ == code@ && scores@[j].1 == spec_health_score(
                            eg as int,
                            nb as int,
                            cr as int,
                            rg as int,
                            cu as int,
                        )
                    },
            decreases regions@.len() - i,
        {
            let (code, eg, nb, cr, rg, cu) = &regions[i];
            let score = Self::calculate(*eg, *nb, *cr, *rg, *cu);
            scores.push((code.clone(), score));
            i = i + 1;
        }
        scores
    }
}

} // verus!
