use trip_engine::datetime::parse_datetime;
use trip_engine::ids::parse_uuid;
use trip_engine::num::parse_i32;
use trip_engine::num::parse_micro;
use trip_engine::num::parse_u16;
use trip_engine::DateTime;

#[test]
fn micro_reads_signed_decimals() {
    assert_eq!(parse_micro("+20.652494"), Some(20_652_494));
    assert_eq!(parse_micro("-100.391404"), Some(-100_391_404));
    assert_eq!(parse_micro("33.9"), Some(33_900_000));
    assert_eq!(parse_micro("0"), Some(0));
    assert_eq!(parse_micro("128"), Some(128_000_000));
    assert_eq!(parse_micro("-0.5"), Some(-500_000));
}

#[test]
fn micro_trims_and_handles_bare_dots() {
    assert_eq!(parse_micro("  33.9  "), Some(33_900_000));
    assert_eq!(parse_micro("12."), Some(12_000_000));
    assert_eq!(parse_micro(".5"), Some(500_000));
    assert_eq!(parse_micro("\t7\n"), Some(7_000_000));
}

#[test]
fn micro_truncates_past_the_sixth_fraction_digit() {
    assert_eq!(parse_micro("1.2345678"), Some(1_234_567));
    assert_eq!(parse_micro("0.0000009"), Some(0));
}

#[test]
fn micro_rejects_what_is_not_a_plain_decimal() {
    assert_eq!(parse_micro(""), None);
    assert_eq!(parse_micro("   "), None);
    assert_eq!(parse_micro("abc"), None);
    assert_eq!(parse_micro("1e3"), None);
    assert_eq!(parse_micro("1.2.3"), None);
    assert_eq!(parse_micro("."), None);
    assert_eq!(parse_micro("+"), None);
    assert_eq!(parse_micro("12 34"), None);
}

#[test]
fn i32_reads_exactly_like_the_standard_parser() {
    assert_eq!(parse_i32("123"), Some(123));
    assert_eq!(parse_i32("-42"), Some(-42));
    assert_eq!(parse_i32("+7"), Some(7));
    assert_eq!(parse_i32("2147483647"), Some(2147483647));
    assert_eq!(parse_i32("-2147483648"), Some(-2147483648));
    assert_eq!(parse_i32("2147483648"), None);
    assert_eq!(parse_i32("0012"), Some(12));
    assert_eq!(parse_i32("12a"), None);
    assert_eq!(parse_i32(""), None);
    assert_eq!(parse_i32("99999999999999999999"), None);
}

#[test]
fn u16_reads_ports() {
    assert_eq!(parse_u16("1883"), Some(1883));
    assert_eq!(parse_u16("+80"), Some(80));
    assert_eq!(parse_u16("65535"), Some(65535));
    assert_eq!(parse_u16("65536"), None);
    assert_eq!(parse_u16("-1"), None);
    assert_eq!(parse_u16(""), None);
}

#[test]
fn datetime_reads_both_separators() {
    let expected = DateTime {
        year: 2025,
        month: 12,
        day: 3,
        hour: 19,
        minute: 58,
        second: 16,
    };
    assert_eq!(parse_datetime("2025-12-03 19:58:16"), Some(expected));
    assert_eq!(parse_datetime("2025-12-03T19:58:16"), Some(expected));
}

#[test]
fn datetime_rejects_impossible_instants() {
    assert_eq!(parse_datetime(""), None);
    assert_eq!(parse_datetime("2025-12-03"), None);
    assert_eq!(parse_datetime("2025-13-03 10:00:00"), None);
    assert_eq!(parse_datetime("2025-02-30 10:00:00"), None);
    assert_eq!(parse_datetime("2025-02-29 10:00:00"), None);
    assert_eq!(parse_datetime("2025-12-03 24:00:00"), None);
    assert_eq!(parse_datetime("2025-12-03 10:60:00"), None);
    assert_eq!(parse_datetime("2025-12-03_10:00:00"), None);
}

#[test]
fn datetime_knows_leap_years() {
    assert!(parse_datetime("2024-02-29 00:00:00").is_some());
    assert!(parse_datetime("2000-02-29 00:00:00").is_some());
    assert!(parse_datetime("1900-02-29 00:00:00").is_none());
}

#[test]
fn uuid_reads_every_source_form() {
    let v = 0x40f8ef364d0150cd88da06fad8a19bacu128;
    assert_eq!(parse_uuid("40f8ef36-4d01-50cd-88da-06fad8a19bac"), Some(v));
    assert_eq!(parse_uuid("40F8EF36-4D01-50CD-88DA-06FAD8A19BAC"), Some(v));
    assert_eq!(parse_uuid("40f8ef364d0150cd88da06fad8a19bac"), Some(v));
    assert_eq!(parse_uuid("{40f8ef36-4d01-50cd-88da-06fad8a19bac}"), Some(v));
    assert_eq!(
        parse_uuid("urn:uuid:40f8ef36-4d01-50cd-88da-06fad8a19bac"),
        Some(v)
    );
    assert_eq!(
        parse_uuid("URN:UUID:40f8ef36-4d01-50cd-88da-06fad8a19bac"),
        Some(v)
    );
    assert_eq!(parse_uuid("00000000-0000-0000-0000-000000000000"), Some(0));
}

#[test]
fn uuid_rejects_malformed_text() {
    assert_eq!(parse_uuid(""), None);
    assert_eq!(parse_uuid("not-a-uuid"), None);
    assert_eq!(parse_uuid("40f8ef36-4d01-50cd-88da-06fad8a19ba"), None);
    assert_eq!(parse_uuid("40f8ef36x4d01-50cd-88da-06fad8a19bac"), None);
    assert_eq!(parse_uuid("40g8ef36-4d01-50cd-88da-06fad8a19bac"), None);
    assert_eq!(parse_uuid("{40f8ef364d0150cd88da06fad8a19bac}"), None);
    assert_eq!(parse_uuid("urn:uuid:40f8ef364d0150cd88da06fad8a19bac"), None);
    assert_eq!(parse_uuid("(40f8ef36-4d01-50cd-88da-06fad8a19bac)"), None);
}
