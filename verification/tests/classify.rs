//! The identifier classifier on concrete ids.

use aa_models::ident::{check_if_zone, classify, i64_to_string, u64_to_string, Classified};

fn expect_composite(id: &str, host: &str, index: u64) {
    match classify(&String::from(id)) {
        Classified::Composite { host: h, index: i } => {
            assert_eq!(h, String::from(host));
            assert_eq!(i, index);
        },
        Classified::Plain(_) => panic!("expected {} to classify as a zone id", id),
    }
}

fn expect_plain(id: &str) {
    match classify(&String::from(id)) {
        Classified::Plain(p) => assert_eq!(p, String::from(id)),
        Classified::Composite { .. } => panic!("expected {} to classify as a plain id", id),
    }
}

#[test]
fn canonical_composite_id_splits() {
    expect_composite(
        "11111111-2222-3333-4444-555555555555-2",
        "11111111-2222-3333-4444-555555555555",
        2,
    );
}

#[test]
fn multi_digit_index_parses_exactly() {
    expect_composite(
        "bf176c86-f96b-4412-bd97-3f09fa5a7ce8-15",
        "bf176c86-f96b-4412-bd97-3f09fa5a7ce8",
        15,
    );
}

#[test]
fn hyphens_between_groups_are_optional() {
    expect_composite(
        "11111111222233334444555555555555-7",
        "11111111222233334444555555555555",
        7,
    );
}

#[test]
fn hex_groups_are_case_insensitive() {
    expect_composite(
        "AbCdEf01-2345-6789-abCD-0123456789aB-15",
        "AbCdEf01-2345-6789-abCD-0123456789aB",
        15,
    );
}

#[test]
fn plain_name_stays_plain() {
    expect_plain("test_switch");
    assert!(!check_if_zone(&String::from("test_switch")));
}

#[test]
fn empty_id_stays_plain() {
    expect_plain("");
}

#[test]
fn host_id_alone_is_not_a_zone_id() {
    expect_plain("11111111-2222-3333-4444-555555555555");
}

#[test]
fn missing_index_digits_stay_plain() {
    expect_plain("11111111-2222-3333-4444-555555555555-");
}

#[test]
fn trailing_garbage_after_digits_stays_plain() {
    expect_plain("11111111-2222-3333-4444-555555555555-5x");
}

#[test]
fn non_hex_host_stays_plain() {
    expect_plain("1111111g-2222-3333-4444-555555555555-5");
}

#[test]
fn index_beyond_machine_range_stays_plain() {
    expect_plain("11111111-2222-3333-4444-555555555555-99999999999999999999999");
}

#[test]
fn index_at_machine_limit_parses() {
    expect_composite(
        "11111111-2222-3333-4444-555555555555-18446744073709551615",
        "11111111-2222-3333-4444-555555555555",
        u64::MAX,
    );
}

#[test]
fn canonical_composite_is_recognized() {
    assert!(check_if_zone(&String::from("bf176c86-f96b-4412-bd97-3f09fa5a7ce8-5")));
}

#[test]
fn decimal_rendering_of_naturals() {
    assert_eq!(u64_to_string(0), String::from("0"));
    assert_eq!(u64_to_string(10), String::from("10"));
    assert_eq!(u64_to_string(90210), String::from("90210"));
    assert_eq!(u64_to_string(u64::MAX), String::from("18446744073709551615"));
}

#[test]
fn decimal_rendering_of_signed_numbers() {
    assert_eq!(i64_to_string(-5), String::from("-5"));
    assert_eq!(i64_to_string(127), String::from("127"));
    assert_eq!(i64_to_string(i64::MIN), String::from("-9223372036854775808"));
}
