use kiep::load::format_year_month;
use kiep::normalize::{
    extract_sido_code, extract_sigungu_code, normalize_biz_no, normalize_bjd_code,
    nps_sido_to_bjd,
};

#[test]
fn test_normalize_biz_no() {
    assert_eq!(normalize_biz_no("123-45-67890"), "1234567890");
    assert_eq!(normalize_biz_no("1234567890"), "1234567890");
    assert_eq!(normalize_biz_no("12345"), "0000012345");
}

#[test]
fn test_normalize_bjd_code() {
    assert_eq!(normalize_bjd_code("11010"), "1101000000");
    assert_eq!(normalize_bjd_code("1101010100"), "1101010100");
    assert_eq!(normalize_bjd_code("4311000"), "4311000000");
}

#[test]
fn test_extract_sigungu() {
    assert_eq!(extract_sigungu_code("1101010100"), "11010");
    assert_eq!(extract_sigungu_code("43110"), "43110");
}

#[test]
fn test_extract_sido() {
    assert_eq!(extract_sido_code("1101010100"), "11");
    assert_eq!(extract_sido_code("43110"), "43");
}

#[test]
fn test_normalize_biz_no_idempotent_samples() {
    for raw in ["123-45-67890", "12345", "", "abc", "123456789012345"] {
        let once = normalize_biz_no(raw);
        let twice = normalize_biz_no(&once);
        assert_eq!(twice, once);
    }
}

#[test]
fn test_normalize_bjd_code_idempotent_samples() {
    for raw in ["11010", "1101010100", "", "43-110"] {
        let once = normalize_bjd_code(raw);
        let twice = normalize_bjd_code(&once);
        assert_eq!(twice, once);
    }
}

#[test]
fn test_normalize_strips_non_digits() {
    assert_eq!(normalize_biz_no("a1b2c3"), "0000000123");
    assert_eq!(normalize_bjd_code("a1b2c3"), "1230000000");
}

#[test]
fn test_nps_sido_mapping_identity_codes() {
    for code in [
        "11", "26", "27", "28", "29", "30", "31", "36", "41", "42", "43", "44", "45", "46", "47",
        "48",
    ] {
        assert_eq!(nps_sido_to_bjd(code), Some(code));
    }
}

#[test]
fn test_nps_sido_mapping_legacy_codes_share_target() {
    // Two legacy codes both resolve to the same present-day province.
    assert_eq!(nps_sido_to_bjd("50"), Some("39"));
    assert_eq!(nps_sido_to_bjd("39"), Some("39"));
}

#[test]
fn test_nps_sido_mapping_unknown_codes() {
    assert_eq!(nps_sido_to_bjd("99"), None);
    assert_eq!(nps_sido_to_bjd("1"), None);
    assert_eq!(nps_sido_to_bjd(""), None);
    assert_eq!(nps_sido_to_bjd("411"), None);
}

#[test]
fn test_format_year_month() {
    assert_eq!(format_year_month("202401"), "2024-01");
    assert_eq!(format_year_month("20240115"), "2024-01");
    assert_eq!(format_year_month("2024"), "2024");
    assert_eq!(format_year_month(""), "");
}
