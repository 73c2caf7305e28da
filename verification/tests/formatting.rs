//! Formatting, compaction and hashing against fixed expected values.

use imagebed::hashing::get_str_sha256;
use imagebed::numfmt::{u128_to_dec_string, u128_to_hex_string, u64_to_dec_string};
use imagebed::util::{format_file_size, shorten};

#[test]
fn format_zero_bytes() {
    assert_eq!(format_file_size(0), "0 B");
}

#[test]
fn format_small_sizes_stay_in_bytes() {
    assert_eq!(format_file_size(1), "1.0 B");
    assert_eq!(format_file_size(512), "512.0 B");
    assert_eq!(format_file_size(1023), "1023.0 B");
}

#[test]
fn format_kilobytes() {
    assert_eq!(format_file_size(1024), "1.0 KB");
    assert_eq!(format_file_size(1536), "1.5 KB");
}

#[test]
fn format_larger_units() {
    assert_eq!(format_file_size(5 * 1024 * 1024), "5.0 MB");
    assert_eq!(format_file_size(3 * 1024 * 1024 * 1024), "3.0 GB");
    assert_eq!(format_file_size(2 * 1024 * 1024 * 1024 * 1024), "2.0 TB");
}

#[test]
fn decimal_rendering() {
    assert_eq!(u64_to_dec_string(0), "0");
    assert_eq!(u64_to_dec_string(1700000000), "1700000000");
    assert_eq!(u128_to_dec_string(12345678901234567890), "12345678901234567890");
}

#[test]
fn hexadecimal_rendering() {
    assert_eq!(u128_to_hex_string(0), "0");
    assert_eq!(u128_to_hex_string(255), "ff");
    assert_eq!(u128_to_hex_string(0xdeadbeef), "deadbeef");
}

#[test]
fn shorten_wraps_around() {
    // The left half is 2^128 - 1; adding 1 wraps to zero.
    let input = "ffffffffffffffffffffffffffffffff00000000000000000000000000000001";
    assert_eq!(shorten(input), "0");
}

#[test]
fn shorten_adds_the_halves() {
    let input = "0000000000000000000000000000000100000000000000000000000000000002";
    assert_eq!(shorten(input), "3");
    let zeros = "0000000000000000000000000000000000000000000000000000000000000000";
    assert_eq!(shorten(zeros), "0");
}

#[test]
fn shorten_matches_independent_arithmetic() {
    let digest = get_str_sha256("abc");
    let left = u128::from_str_radix(&digest[..32], 16).unwrap();
    let right = u128::from_str_radix(&digest[32..], 16).unwrap();
    let expected = format!("{:x}", left.wrapping_add(right));
    assert_eq!(shorten(&digest), expected);
}

#[test]
fn sha256_of_known_inputs() {
    assert_eq!(
        get_str_sha256(""),
        "e3b0c44298fc1c149afbf4c8996fb92427ae41e4649b934ca495991b7852b855"
    );
    assert_eq!(
        get_str_sha256("abc"),
        "ba7816bf8f01cfea414140de5dae2223b00361a396177a9cb410ff61f20015ad"
    );
}
