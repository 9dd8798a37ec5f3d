//! Tests of the byte utilities and the composite child-key convention.

use turtle_store::bytes::{bytes_eq, child_key, child_prefix, has_prefix, u64_to_dec};

#[test]
fn test_u64_to_dec_values() {
    assert_eq!(u64_to_dec(0), b"0".to_vec());
    assert_eq!(u64_to_dec(7), b"7".to_vec());
    assert_eq!(u64_to_dec(10), b"10".to_vec());
    assert_eq!(u64_to_dec(12345), b"12345".to_vec());
    assert_eq!(u64_to_dec(u64::MAX), b"18446744073709551615".to_vec());
}

#[test]
fn test_child_key_layout() {
    assert_eq!(child_key(b"pda", 42), b"pda_42".to_vec());
    assert_eq!(child_key(b"", 1), b"_1".to_vec());
    assert_eq!(child_key(b"a_b", 0), b"a_b_0".to_vec());
}

#[test]
fn test_child_prefix_layout() {
    assert_eq!(child_prefix(b"pda"), b"pda_".to_vec());
}

#[test]
fn test_has_prefix() {
    assert!(has_prefix(b"pda_1", b"pda_"));
    assert!(has_prefix(b"abc", b""));
    assert!(has_prefix(b"abc", b"abc"));
    assert!(!has_prefix(b"ab", b"abc"));
    assert!(!has_prefix(b"pdb_1", b"pda_"));
}

#[test]
fn test_bytes_eq() {
    assert!(bytes_eq(b"", b""));
    assert!(bytes_eq(b"xyz", b"xyz"));
    assert!(!bytes_eq(b"xyz", b"xy"));
    assert!(!bytes_eq(b"xyz", b"xya"));
}
