//! Envelope unwrapping, request parameters, configuration, and error
//! kinds.

use kiep::client::RetryPolicy;
use kiep::config::Config;
use kiep::error::{Error, FetchFailure};
use kiep::numeric::{parse_u16, u32_to_string};
use kiep::sources::fsc::{
    fsc_extract_page, fsc_params, FscBody, FscFinancial, FscHeader, FscItems, FscResponse,
    FscResponseBody,
};
use kiep::sources::kicox::{
    kicox_all_params, kicox_extract_page, kicox_province_params, KicoxBody, KicoxComplex,
    KicoxHeader, KicoxItems, KicoxResponse, KicoxResponseBody,
};
use kiep::sources::nps::{
    nps_extract_page, nps_region_params, NpsBody, NpsHeader, NpsItems, NpsResponse,
    NpsResponseBody, NpsWorkplace,
};
use kiep::sources::nts::{
    nts_first_item, nts_status_params, NtsBizInfo, NtsBody, NtsHeader, NtsItems, NtsResponse,
    NtsResponseBody,
};
use kiep::sources::pps::{
    pps_extract_page, pps_params, PpsBody, PpsContract, PpsHeader, PpsResponse, PpsResponseBody,
};

fn nps_workplace(name: &str) -> NpsWorkplace {
    NpsWorkplace {
        name: name.to_string(),
        biz_reg_no: "123456".to_string(),
        subscriber_count: 3,
        new_subscribers: 1,
        lost_subscribers: 0,
        industry_name: "services".to_string(),
        sido_code: "11".to_string(),
        sigungu_code: "010".to_string(),
        emd_code: "00000".to_string(),
        data_year_month: "202401".to_string(),
    }
}

#[test]
fn test_nps_extract_full_envelope() {
    let resp = NpsResponse {
        response: NpsResponseBody {
            header: NpsHeader { result_code: "00".to_string(), result_msg: "OK".to_string() },
            body: Some(NpsBody {
                items: Some(NpsItems { item: vec![nps_workplace("A"), nps_workplace("B")] }),
                total_count: 2,
            }),
        },
    };
    let page = nps_extract_page(resp);
    assert_eq!(page.items.len(), 2);
    assert_eq!(page.items[0].name, "A");
    assert_eq!(page.items[1].name, "B");
    assert_eq!(page.reported_total, 2);
}

#[test]
fn test_nps_extract_absent_body_is_empty_page() {
    let resp = NpsResponse {
        response: NpsResponseBody {
            header: NpsHeader { result_code: "03".to_string(), result_msg: "NO_DATA".to_string() },
            body: None,
        },
    };
    let page = nps_extract_page(resp);
    assert!(page.items.is_empty());
    assert_eq!(page.reported_total, 0);
}

#[test]
fn test_nps_extract_absent_items_is_empty_page() {
    let resp = NpsResponse {
        response: NpsResponseBody {
            header: NpsHeader { result_code: "00".to_string(), result_msg: "OK".to_string() },
            body: Some(NpsBody { items: None, total_count: 0 }),
        },
    };
    let page = nps_extract_page(resp);
    assert!(page.items.is_empty());
    assert_eq!(page.reported_total, 0);
}

#[test]
fn test_nps_region_params() {
    let only_sido = nps_region_params("43", None);
    assert_eq!(only_sido, vec![("ldong_addr_mgpl_dg_cd".to_string(), "43".to_string())]);
    let with_sigungu = nps_region_params("43", Some("43110"));
    assert_eq!(with_sigungu.len(), 2);
    assert_eq!(with_sigungu[1], ("ldong_addr_mgpl_sggu_cd".to_string(), "43110".to_string()));
}

#[test]
fn test_nts_first_item_takes_first() {
    let info = |bno: &str| NtsBizInfo {
        biz_no: bno.to_string(),
        biz_name: "Acme".to_string(),
        ceo_name: "Kim".to_string(),
        status: "open".to_string(),
        tax_type: "general".to_string(),
    };
    let resp = NtsResponse {
        response: NtsResponseBody {
            header: NtsHeader { result_code: "00".to_string() },
            body: Some(NtsBody {
                items: Some(NtsItems { item: vec![info("1111111111"), info("2222222222")] }),
                total_count: 2,
            }),
        },
    };
    let first = nts_first_item(resp).unwrap();
    assert_eq!(first.biz_no, "1111111111");
}

#[test]
fn test_nts_first_item_absent() {
    let empty_items = NtsResponse {
        response: NtsResponseBody {
            header: NtsHeader { result_code: "00".to_string() },
            body: Some(NtsBody { items: Some(NtsItems { item: vec![] }), total_count: 0 }),
        },
    };
    assert!(nts_first_item(empty_items).is_none());
    let no_body = NtsResponse {
        response: NtsResponseBody {
            header: NtsHeader { result_code: "03".to_string() },
            body: None,
        },
    };
    assert!(nts_first_item(no_body).is_none());
}

#[test]
fn test_nts_status_params() {
    let params = nts_status_params("1234567890");
    assert_eq!(params[0], ("bno".to_string(), "1234567890".to_string()));
    assert_eq!(params[1], ("numOfRows".to_string(), "1".to_string()));
    assert_eq!(params[2], ("type".to_string(), "json".to_string()));
}

#[test]
fn test_fsc_extract_and_params() {
    let item = FscFinancial {
        corp_no: "1101110000000".to_string(),
        corp_name: "Acme".to_string(),
        account_date: "20241231".to_string(),
        account_name: "revenue".to_string(),
        current_amount: Some("1000".to_string()),
        previous_amount: None,
    };
    let resp = FscResponse {
        response: FscResponseBody {
            header: FscHeader { result_code: "00".to_string() },
            body: Some(FscBody {
                items: Some(FscItems { item: vec![item] }),
                total_count: 41,
            }),
        },
    };
    let page = fsc_extract_page(resp);
    assert_eq!(page.items.len(), 1);
    assert_eq!(page.reported_total, 41);
    let params = fsc_params("1101110000000", "2024");
    assert_eq!(params[0], ("crno".to_string(), "1101110000000".to_string()));
    assert_eq!(params[1], ("bizYear".to_string(), "2024".to_string()));
}

#[test]
fn test_kicox_extract_and_params() {
    let item = KicoxComplex {
        complex_code: "K01".to_string(),
        name: "Osong".to_string(),
        complex_type: "general".to_string(),
        province: "Chungbuk".to_string(),
        sigungu: "Cheongju".to_string(),
        designated_area: Some(1234500),
        industrial_area: None,
        tenant_count: Some(120),
        operating_count: Some(100),
        occupancy_rate: Some(95500),
        production: Some(500000),
        export_amount: None,
        employment: Some(4300),
    };
    let resp = KicoxResponse {
        response: KicoxResponseBody {
            header: KicoxHeader { result_code: "00".to_string() },
            body: Some(KicoxBody {
                items: Some(KicoxItems { item: vec![item] }),
                total_count: 1,
            }),
        },
    };
    let page = kicox_extract_page(resp);
    assert_eq!(page.items.len(), 1);
    assert_eq!(page.items[0].occupancy_rate, Some(95500));
    assert!(kicox_all_params().is_empty());
    let params = kicox_province_params("Chungbuk");
    assert_eq!(params, vec![("ctpvNm".to_string(), "Chungbuk".to_string())]);
}

#[test]
fn test_pps_extract_bare_list_and_params() {
    let item = PpsContract {
        bid_no: "B-1".to_string(),
        contract_no: "C-1".to_string(),
        title: "road work".to_string(),
        biz_no: "1234567890".to_string(),
        company_name: "Acme".to_string(),
        amount: Some("99000".to_string()),
        contract_date: "2024-01-15".to_string(),
        agency: "city hall".to_string(),
        contract_type: "construction".to_string(),
    };
    let resp = PpsResponse {
        response: PpsResponseBody {
            header: PpsHeader { result_code: "00".to_string() },
            body: Some(PpsBody { items: Some(vec![item]), total_count: 7 }),
        },
    };
    let page = pps_extract_page(resp);
    assert_eq!(page.items.len(), 1);
    assert_eq!(page.reported_total, 7);
    let params = pps_params("20240101", "20240131");
    assert_eq!(params[0], ("inqryBgnDt".to_string(), "20240101".to_string()));
    assert_eq!(params[1], ("inqryEndDt".to_string(), "20240131".to_string()));
}

#[test]
fn test_u32_rendering() {
    assert_eq!(u32_to_string(0), "0");
    assert_eq!(u32_to_string(7), "7");
    assert_eq!(u32_to_string(100), "100");
    assert_eq!(u32_to_string(4294967295), "4294967295");
}

#[test]
fn test_parse_u16_accepts_and_rejects() {
    assert_eq!(parse_u16("8080"), Some(8080));
    assert_eq!(parse_u16("0"), Some(0));
    assert_eq!(parse_u16("070"), Some(70));
    assert_eq!(parse_u16("+123"), Some(123));
    assert_eq!(parse_u16("65535"), Some(65535));
    assert_eq!(parse_u16("65536"), None);
    assert_eq!(parse_u16("99999999999"), None);
    assert_eq!(parse_u16(""), None);
    assert_eq!(parse_u16("+"), None);
    assert_eq!(parse_u16("80a"), None);
    assert_eq!(parse_u16("-1"), None);
}

#[test]
fn test_config_requires_database_url() {
    let r = Config::from_values(None, None, None, None, None, None, None, None);
    match r {
        Err(Error::Config(_)) => {},
        _ => panic!("missing DATABASE_URL must be a configuration error"),
    }
}

#[test]
fn test_config_defaults_and_parsing() {
    let c = Config::from_values(
        Some("postgres://localhost/kiep".to_string()),
        None,
        Some("9090".to_string()),
        Some("nps-key".to_string()),
        None,
        None,
        None,
        None,
    )
    .unwrap();
    assert_eq!(c.database_url, "postgres://localhost/kiep");
    assert_eq!(c.api_host, "0.0.0.0");
    assert_eq!(c.api_port, 9090);
    assert_eq!(c.nps_api_key.as_deref(), Some("nps-key"));
    assert!(c.nts_api_key.is_none());
}

#[test]
fn test_config_port_falls_back() {
    let c = Config::from_values(
        Some("postgres://localhost/kiep".to_string()),
        Some("127.0.0.1".to_string()),
        Some("not-a-port".to_string()),
        None,
        None,
        None,
        None,
        None,
    )
    .unwrap();
    assert_eq!(c.api_host, "127.0.0.1");
    assert_eq!(c.api_port, 8080);
}

#[test]
fn test_error_kinds() {
    assert!(Error::Transport("boom".to_string()).is_retryable());
    assert!(Error::HttpStatus(503).is_retryable());
    assert!(Error::Decode("bad json".to_string()).is_retryable());
    assert!(!Error::Load("db down".to_string()).is_retryable());
    assert!(!Error::Config("missing key".to_string()).is_retryable());
    let last = FetchFailure::HttpStatus(500);
    let exhausted = Error::RetriesExhausted(last.clone());
    assert!(!exhausted.is_retryable());
    assert_eq!(Error::from_fetch_failure(last), Error::HttpStatus(500));
}

#[test]
fn test_retry_policy_standard_values() {
    let p = RetryPolicy::standard();
    assert_eq!(p.max_retries, 4);
    assert_eq!(p.base_backoff_ms, 2000);
}
