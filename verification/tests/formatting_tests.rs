use jobq::hexfmt::hex_encode;
use jobq::numfmt::{i64_dec_str, ms_to_seconds_floor, u64_dec_str};

#[test]
fn unsigned_decimal_rendering() {
    assert_eq!(u64_dec_str(0), "0");
    assert_eq!(u64_dec_str(7), "7");
    assert_eq!(u64_dec_str(10), "10");
    assert_eq!(u64_dec_str(1_700_000_000), "1700000000");
    assert_eq!(u64_dec_str(u64::MAX), "18446744073709551615");
}

#[test]
fn signed_decimal_rendering() {
    assert_eq!(i64_dec_str(0), "0");
    assert_eq!(i64_dec_str(-1), "-1");
    assert_eq!(i64_dec_str(1_700_000_000), "1700000000");
    assert_eq!(i64_dec_str(-1_700_000_000), "-1700000000");
    assert_eq!(i64_dec_str(i64::MIN), "-9223372036854775808");
    assert_eq!(i64_dec_str(i64::MAX), "9223372036854775807");
}

#[test]
fn milliseconds_floor_to_seconds() {
    assert_eq!(ms_to_seconds_floor(0), 0);
    assert_eq!(ms_to_seconds_floor(999), 0);
    assert_eq!(ms_to_seconds_floor(1_000), 1);
    assert_eq!(ms_to_seconds_floor(1_999), 1);
    // rounding is toward minus infinity, as a calendar timestamp truncates
    assert_eq!(ms_to_seconds_floor(-1), -1);
    assert_eq!(ms_to_seconds_floor(-1_000), -1);
    assert_eq!(ms_to_seconds_floor(-1_001), -2);
}

#[test]
fn lowercase_hex_of_bytes() {
    assert_eq!(hex_encode(&Vec::new()), "");
    assert_eq!(hex_encode(&vec![0x00]), "00");
    assert_eq!(hex_encode(&vec![0xde, 0xad, 0xbe, 0xef]), "deadbeef");
    assert_eq!(hex_encode(&vec![0x0f, 0xf0, 0x5a]), "0ff05a");
}
