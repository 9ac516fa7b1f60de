//! Retry-schedule and pagination scenarios.

use kiep::client::{
    page_query_params, run_pagination, run_retry, with_service_key, PageFetch, Paginator,
    RetryPolicy,
};
use kiep::error::{Error, FetchFailure};

fn fail(status: u16) -> Option<FetchFailure> {
    Some(FetchFailure::HttpStatus(status))
}

fn page(items: Vec<u32>, reported_total: u32) -> PageFetch<u32> {
    PageFetch { items, reported_total }
}

#[test]
fn test_pagination_three_pages() {
    // totalCount = 250 at page size 100: exactly 3 pages (100 + 100 + 50),
    // source order preserved across pages.
    let pages = vec![
        page((0..100).collect(), 250),
        page((100..200).collect(), 250),
        page((200..250).collect(), 250),
        page((250..260).collect(), 250),
    ];
    let run = run_pagination(100, pages);
    assert_eq!(run.pages_requested, 3);
    assert!(!run.source_drained);
    let expected: Vec<u32> = (0..250).collect();
    assert_eq!(run.items, expected);
}

#[test]
fn test_pagination_zero_item_page_halts() {
    // An empty page halts fetching even though the reported total has
    // not been reached.
    let pages = vec![
        page((0..100).collect(), 1000),
        page(Vec::new(), 1000),
        page((100..200).collect(), 1000),
    ];
    let run = run_pagination(100, pages);
    assert_eq!(run.pages_requested, 2);
    assert!(!run.source_drained);
    let expected: Vec<u32> = (0..100).collect();
    assert_eq!(run.items, expected);
}

#[test]
fn test_pagination_trusts_latest_total() {
    // The total reported by the most recent page governs: a total that
    // grows keeps the fetch going.
    let pages = vec![
        page((0..100).collect(), 150),
        page((100..200).collect(), 250),
        page((200..250).collect(), 250),
    ];
    let run = run_pagination(100, pages);
    assert_eq!(run.pages_requested, 3);
    assert_eq!(run.items.len(), 250);
}

#[test]
fn test_pagination_drained_source() {
    // The supplied responses run out while another page is still owed.
    let pages = vec![page((0..100).collect(), 500)];
    let run = run_pagination(100, pages);
    assert_eq!(run.pages_requested, 1);
    assert!(run.source_drained);
    assert_eq!(run.items.len(), 100);
}

#[test]
fn test_retry_fifth_attempt_succeeds() {
    // First 4 attempts fail, the 5th succeeds: exactly 4 delays of
    // 2000, 4000, 8000, 16000 ms, and the run delivers.
    let policy = RetryPolicy::standard();
    let outcomes = vec![fail(500), fail(501), fail(502), fail(503), None];
    let run = run_retry(&policy, outcomes);
    assert!(run.succeeded);
    assert_eq!(run.attempts, 5);
    assert_eq!(run.delays_ms, vec![2000, 4000, 8000, 16000]);
    assert!(run.error.is_none());
}

#[test]
fn test_retry_all_attempts_fail() {
    // All 5 attempts fail: the run ends with RetriesExhausted wrapping
    // the last observed failure.
    let policy = RetryPolicy::standard();
    let outcomes = vec![fail(500), fail(501), fail(502), fail(503), fail(504)];
    let run = run_retry(&policy, outcomes);
    assert!(!run.succeeded);
    assert_eq!(run.attempts, 5);
    assert_eq!(run.delays_ms, vec![2000, 4000, 8000, 16000]);
    assert_eq!(
        run.error,
        Some(Error::RetriesExhausted(FetchFailure::HttpStatus(504)))
    );
}

#[test]
fn test_retry_first_attempt_succeeds() {
    let policy = RetryPolicy::standard();
    let outcomes = vec![None, fail(500), fail(500), fail(500), fail(500)];
    let run = run_retry(&policy, outcomes);
    assert!(run.succeeded);
    assert_eq!(run.attempts, 1);
    assert!(run.delays_ms.is_empty());
    assert!(run.error.is_none());
}

#[test]
fn test_backoff_delays_double() {
    let policy = RetryPolicy::standard();
    assert_eq!(policy.backoff_delay_ms(1), 2000);
    assert_eq!(policy.backoff_delay_ms(2), 4000);
    assert_eq!(policy.backoff_delay_ms(3), 8000);
    assert_eq!(policy.backoff_delay_ms(4), 16000);
}

#[test]
fn test_paginator_steps() {
    let mut pager = Paginator::new(100);
    assert_eq!(pager.next_page(), Some(1));
    pager.record_page(100, 250);
    assert_eq!(pager.next_page(), Some(2));
    pager.record_page(100, 250);
    assert_eq!(pager.next_page(), Some(3));
    pager.record_page(50, 250);
    assert_eq!(pager.next_page(), None);
    assert!(pager.done());
}

#[test]
fn test_paginator_empty_page_is_final() {
    let mut pager = Paginator::new(100);
    pager.record_page(0, 1000);
    assert!(pager.done());
    assert_eq!(pager.next_page(), None);
}

#[test]
fn test_service_key_comes_first() {
    let base = vec![("crno".to_string(), "1234".to_string())];
    let params = with_service_key("test-key", &base);
    assert_eq!(params.len(), 2);
    assert_eq!(params[0], ("serviceKey".to_string(), "test-key".to_string()));
    assert_eq!(params[1], ("crno".to_string(), "1234".to_string()));
}

#[test]
fn test_page_query_params_appended() {
    let base = vec![("ctpvNm".to_string(), "Chungbuk".to_string())];
    let params = page_query_params(&base, 3, 100);
    assert_eq!(params.len(), 4);
    assert_eq!(params[0], ("ctpvNm".to_string(), "Chungbuk".to_string()));
    assert_eq!(params[1], ("pageNo".to_string(), "3".to_string()));
    assert_eq!(params[2], ("numOfRows".to_string(), "100".to_string()));
    assert_eq!(params[3], ("type".to_string(), "json".to_string()));
}
