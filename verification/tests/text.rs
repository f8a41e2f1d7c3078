use voice_contracts::text::{parse_u32, parse_u64};

#[test]
fn parse_u64_reads_what_the_standard_library_reads() {
    let inputs = [
        "", "0", "7", "42", "007", "+5", "+", "++5", "-5", "-0", "5+", " 5", "5 ", "1_000", "0x10",
        "1e3", "12a", "a12", "18446744073709551615", "18446744073709551616", "18446744073709551625",
        "99999999999999999999999999", "+18446744073709551615", "00000000000000000000000000001",
        "٣", "１２", "1.0", "4294967295", "4294967296",
    ];
    for text in inputs {
        assert_eq!(parse_u64(text), text.parse::<u64>().ok(), "{:?}", text);
        assert_eq!(parse_u32(text), text.parse::<u32>().ok(), "{:?}", text);
    }
}

#[test]
fn parse_exact_values() {
    assert_eq!(parse_u64("604800000000000"), Some(604_800_000_000_000));
    assert_eq!(parse_u64("18446744073709551615"), Some(u64::MAX));
    assert_eq!(parse_u64("18446744073709551616"), None);
    assert_eq!(parse_u32("4294967295"), Some(u32::MAX));
    assert_eq!(parse_u32("4294967296"), None);
    assert_eq!(parse_u32("+0010"), Some(10));
    assert_eq!(parse_u32(""), None);
    assert_eq!(parse_u32("+"), None);
}

#[test]
fn parse_round_trips_rendered_numbers() {
    for n in [0u64, 1, 9, 10, 11, 99, 100, 12345, u32::MAX as u64, u64::MAX] {
        assert_eq!(parse_u64(&n.to_string()), Some(n));
    }
}
