use ojp_reader::number::{parse_i32, parse_u32};
use ojp_reader::stop_id::{didok_from_fields, iso_to_uic, normalize_stop_ref, sloid_to_didok, uic_of_lowercase};
use ojp_reader::OjpError;

#[test]
fn numeric_reference_is_kept() {
    assert_eq!(normalize_stop_ref("8503000"), Ok(8503000));
}

#[test]
fn structured_reference_is_folded() {
    assert_eq!(normalize_stop_ref("ch:1:sloid:7000:0"), Ok(8507000));
    assert_eq!(normalize_stop_ref("ch:1:sloid:07000:0"), Ok(8507000));
    assert_eq!(normalize_stop_ref("de:1:x:123"), Ok(8000123));
}

#[test]
fn country_code_in_upper_case() {
    assert_eq!(normalize_stop_ref("CH:1:sloid:7000:0"), Ok(8507000));
    assert_eq!(iso_to_uic("FR"), Some(87));
}

#[test]
fn unknown_country() {
    assert_eq!(
        normalize_stop_ref("xx:1:sloid:7000:0"),
        Err(OjpError::FailedToConvertIsoCode("xx".to_string()))
    );
    assert_eq!(
        sloid_to_didok("XY:1:sloid:7000"),
        Err(OjpError::FailedToConvertIsoCode("xy".to_string()))
    );
}

#[test]
fn too_few_fields() {
    assert_eq!(
        normalize_stop_ref("a:b:c"),
        Err(OjpError::MalformedSloid("a:b:c".to_string()))
    );
}

#[test]
fn local_number_not_numeric() {
    assert_eq!(
        normalize_stop_ref("ch:1:sloid:abc:0"),
        Err(OjpError::MalformedSloid("ch:1:sloid:abc:0".to_string()))
    );
    assert_eq!(
        normalize_stop_ref("ch:1:sloid::0"),
        Err(OjpError::MalformedSloid("ch:1:sloid::0".to_string()))
    );
}

#[test]
fn long_local_numbers() {
    assert_eq!(normalize_stop_ref("ch:1:sloid:123456"), Ok(85123456));
    assert_eq!(normalize_stop_ref("ch:1:sloid:1234567"), Ok(851234567));
    assert_eq!(
        normalize_stop_ref("ch:1:sloid:99999999"),
        Err(OjpError::ParseInt("99999999".to_string()))
    );
}

#[test]
fn country_table() {
    assert_eq!(uic_of_lowercase("ch"), Some(85));
    assert_eq!(uic_of_lowercase("de"), Some(80));
    assert_eq!(uic_of_lowercase("fi"), Some(10));
    assert_eq!(uic_of_lowercase("iq"), Some(99));
    assert_eq!(uic_of_lowercase("CH"), None);
    assert_eq!(uic_of_lowercase("che"), None);
    assert_eq!(iso_to_uic("xx"), None);
}

#[test]
fn integer_texts() {
    assert_eq!(parse_i32("+12"), Some(12));
    assert_eq!(parse_i32("-12"), Some(-12));
    assert_eq!(parse_i32("-2147483648"), Some(i32::MIN));
    assert_eq!(parse_i32("2147483647"), Some(i32::MAX));
    assert_eq!(parse_i32("2147483648"), None);
    assert_eq!(parse_i32("-"), None);
    assert_eq!(parse_i32(""), None);
    assert_eq!(parse_i32("1a"), None);
    assert_eq!(parse_u32("4294967295"), Some(u32::MAX));
    assert_eq!(parse_u32("4294967296"), None);
    assert_eq!(parse_u32("-1"), None);
    assert_eq!(parse_u32("+"), None);
}

#[test]
fn fields_fold_into_code() {
    assert_eq!(didok_from_fields("ch".to_string(), "ch:1:sloid:7000", "7000"), Ok(8507000));
    assert_eq!(didok_from_fields("fr".to_string(), "fr:1:x:+12", "+12"), Ok(8700012));
    assert_eq!(
        didok_from_fields("CH".to_string(), "CH:1:sloid:7000", "7000"),
        Err(OjpError::FailedToConvertIsoCode("CH".to_string()))
    );
    assert_eq!(
        didok_from_fields("ch".to_string(), "ch:1:sloid:-7", "-7"),
        Err(OjpError::MalformedSloid("ch:1:sloid:-7".to_string()))
    );
    assert_eq!(
        didok_from_fields("ch".to_string(), "ch:1:sloid:4294967295", "4294967295"),
        Err(OjpError::ParseInt("4294967295".to_string()))
    );
}
