use cgroups_rs::hugetlb::{
    get_binary_size_map, get_decimal_abbrs, get_decimal_size_map, parse_size, size_from_number,
    GiB, KiB, MiB, PiB, TiB, GB, KB, MB, PB, TB,
};

#[test]
fn test_binary_size_valid() {
    let m = get_binary_size_map();
    // Valid inputs must include a multiplier letter.
    assert_eq!(parse_size("1k", &m).unwrap(), KiB);
    assert_eq!(parse_size("2m", &m).unwrap(), 2 * MiB);
    assert_eq!(parse_size("3g", &m).unwrap(), 3 * GiB);
    assert_eq!(parse_size("4t", &m).unwrap(), 4 * TiB);
    assert_eq!(parse_size("5p", &m).unwrap(), 5 * PiB);
}

#[test]
fn test_decimal_size_valid() {
    let m = get_decimal_size_map();
    assert_eq!(parse_size("1k", &m).unwrap(), KB);
    assert_eq!(parse_size("2m", &m).unwrap(), 2 * MB);
    assert_eq!(parse_size("3g", &m).unwrap(), 3 * GB);
    assert_eq!(parse_size("4t", &m).unwrap(), 4 * TB);
    assert_eq!(parse_size("5p", &m).unwrap(), 5 * PB);
}

#[test]
fn test_trailing_b_suffix() {
    let m = get_binary_size_map();
    // Trailing 'b' or 'B' should be accepted.
    assert_eq!(parse_size("1kb", &m).unwrap(), KiB);
    assert_eq!(parse_size("2mB", &m).unwrap(), 2 * MiB);
}

#[test]
fn test_invalid_inputs() {
    let m = get_binary_size_map();
    // Missing multiplier letter results in error.
    assert!(parse_size("1", &m).is_err());
    // Invalid multiplier letter.
    assert!(parse_size("10x", &m).is_err());
    // Non-numeric input.
    assert!(parse_size("abc", &m).is_err());
    // Only multiplier letter with no number.
    assert!(parse_size("k", &m).is_err());
    // Number with an invalid trailing character.
    assert!(parse_size("123z", &m).is_err());
}

#[test]
fn test_uppercase_multiplier_fails() {
    let m = get_binary_size_map();
    // The map only has lower-case keys, so "1K" has no multiplier.
    assert!(parse_size("1K", &m).is_err());
}

#[test]
fn sizes_with_whitespace_and_overflow() {
    let m = get_binary_size_map();
    assert_eq!(parse_size("  2 m ", &m).unwrap(), 2 * MiB);
    assert!(parse_size("340282366920938463463374607431768211455p", &m).is_err());
    assert_eq!(size_from_number("7", 'k', &m).unwrap(), 7 * KiB);
    assert!(size_from_number("7", 'x', &m).is_err());
}

#[test]
fn decimal_abbreviations() {
    let a = get_decimal_abbrs();
    assert_eq!(a, vec!["B", "KB", "MB", "GB", "TB", "PB", "EB", "ZB", "YB"]);
}
