//! Tests for the byte-level wire helpers.

use p4runtime_client::config::build_tofino_config;
use p4runtime_client::utils::canonicalize_bitstring;

#[test]
fn test_canonicalize_bitstring() {
    assert_eq!(
        canonicalize_bitstring(99u8.to_be_bytes().to_vec()),
        vec![0x63]
    );
    assert_eq!(
        canonicalize_bitstring(99u16.to_be_bytes().to_vec()),
        vec![0x63]
    );
    assert_eq!(
        canonicalize_bitstring(12388u16.to_be_bytes().to_vec()),
        vec![0x30, 0x64]
    );
    assert_eq!(
        canonicalize_bitstring((-99i8).to_be_bytes().to_vec()),
        vec![0x9d]
    );
    assert_eq!(
        canonicalize_bitstring((-739i16).to_be_bytes().to_vec()),
        vec![0xfd, 0x1d]
    );
    assert_eq!(
        canonicalize_bitstring((0u16).to_be_bytes().to_vec()),
        vec![0x00]
    )
}

#[test]
fn canonicalize_edge_cases() {
    // Empty stays empty.
    assert_eq!(canonicalize_bitstring(vec![]), Vec::<u8>::new());
    // All filler bytes: the last byte alone is kept.
    assert_eq!(canonicalize_bitstring(vec![0xff, 0xff]), vec![0xff]);
    assert_eq!(canonicalize_bitstring(vec![0x00, 0xff, 0x00]), vec![0x00]);
    // Mixed leading filler before a significant byte.
    assert_eq!(
        canonicalize_bitstring(vec![0xff, 0x00, 0x12, 0x00]),
        vec![0x12, 0x00]
    );
    // Already canonical input is unchanged.
    assert_eq!(canonicalize_bitstring(vec![0x12, 0x34]), vec![0x12, 0x34]);
}

#[test]
fn tofino_config_layout() {
    let program_name = "my_program";
    let tofino_bin = vec![0x00, 0x01, 0x02, 0x03];
    let context_json = vec![0x04, 0x05, 0x06, 0x07];

    let config = build_tofino_config(program_name, &tofino_bin, &context_json);
    assert_eq!(
        config,
        vec![
            0x0A, 0x00, 0x00, 0x00, 0x6D, 0x79, 0x5F, 0x70, 0x72, 0x6F, 0x67, 0x72, 0x61, 0x6D,
            0x04, 0x00, 0x00, 0x00, 0x00, 0x01, 0x02, 0x03,
            0x04, 0x00, 0x00, 0x00, 0x04, 0x05, 0x06, 0x07,
        ]
    );
}

#[test]
fn tofino_config_empty_sections() {
    let config = build_tofino_config("", &[], &[]);
    assert_eq!(config, vec![0u8; 12]);
}
