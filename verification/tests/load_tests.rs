//! Loader scenarios: skip rules, upsert semantics, idempotence, and
//! partial-batch behavior.

use kiep::load::{plan_nps_record, run_nps_load, upsert_nps_workplaces};
use kiep::sources::nps::NpsWorkplace;
use kiep::store::CanonicalStore;

fn wp(name: &str, biz_reg_no: &str, subscribers: u32, ym: &str) -> NpsWorkplace {
    NpsWorkplace {
        name: name.to_string(),
        biz_reg_no: biz_reg_no.to_string(),
        subscriber_count: subscribers,
        new_subscribers: 1,
        lost_subscribers: 0,
        industry_name: "manufacturing".to_string(),
        sido_code: "43".to_string(),
        sigungu_code: "110".to_string(),
        emd_code: "00000".to_string(),
        data_year_month: ym.to_string(),
    }
}

#[test]
fn test_plan_normalizes_identifiers() {
    let plan = plan_nps_record(&wp("Acme", "123456", 10, "202401")).unwrap();
    assert_eq!(plan.company.biz_no, "0000123456");
    assert_eq!(plan.company.name, "Acme");
    assert_eq!(plan.company.industry_code.as_deref(), Some("manufacturing"));
    assert_eq!(plan.company.bjd_code.as_deref(), Some("43110"));
    let emp = plan.employment.unwrap();
    assert_eq!(emp.biz_no, "0000123456");
    assert_eq!(emp.year_month, "2024-01");
    assert_eq!(emp.employee_count, 10);
    assert_eq!(emp.new_hires, 1);
    assert_eq!(emp.departures, 0);
}

#[test]
fn test_plan_skips_empty_identifiers() {
    assert!(plan_nps_record(&wp("", "123456", 10, "202401")).is_none());
    assert!(plan_nps_record(&wp("Acme", "", 10, "202401")).is_none());
}

#[test]
fn test_plan_without_period_has_no_employment() {
    let plan = plan_nps_record(&wp("Acme", "123456", 10, "")).unwrap();
    assert!(plan.employment.is_none());
}

#[test]
fn test_upsert_batch_counts_and_skips() {
    let mut store = CanonicalStore::new();
    let batch = vec![
        wp("Acme", "123456", 10, "202401"),
        wp("", "999999", 5, "202401"),
        wp("Beta", "654321", 20, "202401"),
    ];
    let count = upsert_nps_workplaces(&mut store, &batch);
    assert_eq!(count, 2);
    assert_eq!(store.company_count(), 2);
    assert_eq!(store.employment_count(), 2);
}

#[test]
fn test_upsert_updates_name_keeps_industry() {
    let mut store = CanonicalStore::new();
    let mut first = wp("Old Name", "123456", 10, "");
    first.industry_name = "textiles".to_string();
    let mut second = wp("New Name", "123456", 10, "");
    second.industry_name = "chemicals".to_string();
    upsert_nps_workplaces(&mut store, &vec![first, second]);
    assert_eq!(store.company_count(), 1);
    let key = "0000123456".to_string();
    let company = store.get_company(&key).unwrap();
    // The conflict path overwrites the name but never the fields set at
    // insert time.
    assert_eq!(company.name, "New Name");
    assert_eq!(company.industry_code.as_deref(), Some("textiles"));
}

#[test]
fn test_employment_full_replacement() {
    let mut store = CanonicalStore::new();
    upsert_nps_workplaces(&mut store, &vec![wp("Acme", "123456", 10, "202401")]);
    upsert_nps_workplaces(&mut store, &vec![wp("Acme", "123456", 37, "202401")]);
    assert_eq!(store.employment_count(), 1);
    let key = "0000123456".to_string();
    let ym = "2024-01".to_string();
    let point = store.get_employment(&key, &ym).unwrap();
    assert_eq!(point.employee_count, 37);
}

#[test]
fn test_upsert_batch_idempotent() {
    // Applying the same batch twice leaves exactly the state one
    // application leaves: no duplicate rows, no accumulation.
    let batch = vec![
        wp("Acme", "123456", 10, "202401"),
        wp("Beta", "654321", 20, "202402"),
        wp("Acme Renamed", "123456", 12, "202401"),
    ];
    let mut store = CanonicalStore::new();
    let first_count = upsert_nps_workplaces(&mut store, &batch);
    let companies_once = store.companies.clone();
    let employment_once = store.employment.clone();
    let second_count = upsert_nps_workplaces(&mut store, &batch);
    assert_eq!(first_count, 3);
    assert_eq!(second_count, 3);
    assert_eq!(store.companies, companies_once);
    assert_eq!(store.employment, employment_once);
}

#[test]
fn test_partial_batch_aborts_at_failure() {
    // Record 3 of 5 fails: records 1-2 stay committed, records 4-5 are
    // never attempted, and the reported success count is 2.
    let batch = vec![
        wp("A", "100001", 1, "202401"),
        wp("B", "100002", 2, "202401"),
        wp("C", "100003", 3, "202401"),
        wp("D", "100004", 4, "202401"),
        wp("E", "100005", 5, "202401"),
    ];
    let verdicts = vec![true, true, false, true, true];
    let mut store = CanonicalStore::new();
    let report = run_nps_load(&mut store, &batch, &verdicts);
    assert_eq!(report.committed, 2);
    assert!(report.error.is_some());
    assert_eq!(store.company_count(), 2);
    assert!(store.get_company(&"0000100001".to_string()).is_some());
    assert!(store.get_company(&"0000100002".to_string()).is_some());
    assert!(store.get_company(&"0000100003".to_string()).is_none());
    assert!(store.get_company(&"0000100004".to_string()).is_none());
    assert!(store.get_company(&"0000100005".to_string()).is_none());
}

#[test]
fn test_full_batch_load_reports_no_error() {
    let batch = vec![wp("A", "100001", 1, "202401"), wp("B", "100002", 2, "202401")];
    let verdicts = vec![true, true];
    let mut store = CanonicalStore::new();
    let report = run_nps_load(&mut store, &batch, &verdicts);
    assert_eq!(report.committed, 2);
    assert!(report.error.is_none());
}

#[test]
fn test_skipped_record_consults_no_verdict() {
    // A rejected-by-rule record is skipped without touching the store's
    // verdict for it.
    let batch = vec![wp("", "100001", 1, "202401"), wp("B", "100002", 2, "202401")];
    let verdicts = vec![false, true];
    let mut store = CanonicalStore::new();
    let report = run_nps_load(&mut store, &batch, &verdicts);
    assert_eq!(report.committed, 1);
    assert!(report.error.is_none());
}
