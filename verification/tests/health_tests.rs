//! Health score scenarios.  Indicator inputs are in thousandths of their
//! natural unit and scores in units of `1 / SCORE_UNIT` of a point, so a
//! threshold of 70 points is `70 * SCORE_UNIT`.

use kiep::health_score::HealthScoreCalculator;
use kiep::models::{RegionHealth, SCORE_UNIT};

#[test]
fn test_health_score_high() {
    let score = HealthScoreCalculator::calculate(5000, 10000, 2000, 15000, 95000);
    assert!(
        score > 70 * SCORE_UNIT,
        "High-performing region should score above 70, got {}",
        score
    );
}

#[test]
fn test_health_score_low() {
    let score = HealthScoreCalculator::calculate(-8000, 1000, 15000, -10000, 30000);
    assert!(
        score < 30 * SCORE_UNIT,
        "Struggling region should score below 30, got {}",
        score
    );
}

#[test]
fn test_score_bounds() {
    let max = HealthScoreCalculator::calculate(20000, 30000, 0, 50000, 100000);
    let min = HealthScoreCalculator::calculate(-20000, 0, 30000, -30000, 0);
    assert!(max <= 100 * SCORE_UNIT);
    assert!(min >= 0);
}

#[test]
fn test_score_exact_midpoint() {
    // Every indicator at the midpoint of its band: each normalized term
    // is exactly one half, so the score is exactly 50 points.
    let score = HealthScoreCalculator::calculate(0, 10000, 10000, 5000, 50000);
    assert_eq!(score, 50 * SCORE_UNIT);
}

#[test]
fn test_score_exact_extremes() {
    // All indicators at their best bound: exactly 100 points.
    let best = HealthScoreCalculator::calculate(10000, 20000, 0, 30000, 100000);
    assert_eq!(best, 100 * SCORE_UNIT);
    // All at their worst bound: exactly 0.
    let worst = HealthScoreCalculator::calculate(-10000, 0, 20000, -20000, 0);
    assert_eq!(worst, 0);
}

#[test]
fn test_calculate_score_matches_calculator() {
    let a = RegionHealth::calculate_score(5000, 10000, 2000, 15000, 95000);
    let b = HealthScoreCalculator::calculate(5000, 10000, 2000, 15000, 95000);
    assert_eq!(a, b);
}

#[test]
fn test_calculate_batch_preserves_order() {
    let regions = vec![
        ("11010".to_string(), 5000i64, 10000i64, 2000i64, 15000i64, 95000i64),
        ("43110".to_string(), -8000, 1000, 15000, -10000, 30000),
    ];
    let scores = HealthScoreCalculator::calculate_batch(&regions);
    assert_eq!(scores.len(), 2);
    assert_eq!(scores[0].0, "11010");
    assert_eq!(scores[1].0, "43110");
    assert_eq!(scores[0].1, HealthScoreCalculator::calculate(5000, 10000, 2000, 15000, 95000));
    assert_eq!(scores[1].1, HealthScoreCalculator::calculate(-8000, 1000, 15000, -10000, 30000));
}
