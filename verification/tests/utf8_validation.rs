use signal_bridge::text::validate_utf8;

#[test]
fn empty_bytes_are_valid() {
    assert!(validate_utf8(&Vec::new()));
}

#[test]
fn ascii_is_valid() {
    assert!(validate_utf8(&b"clicked".to_vec()));
}

#[test]
fn two_byte_scalars_are_valid() {
    // U+00E9, U+00FC
    assert!(validate_utf8(&vec![0xc3, 0xa9, 0xc3, 0xbc]));
}

#[test]
fn three_byte_scalars_are_valid() {
    // U+20AC
    assert!(validate_utf8(&vec![0xe2, 0x82, 0xac]));
}

#[test]
fn four_byte_scalars_are_valid() {
    // U+1F600
    assert!(validate_utf8(&vec![0xf0, 0x9f, 0x98, 0x80]));
}

#[test]
fn bare_continuation_byte_is_invalid() {
    assert!(!validate_utf8(&vec![0x80]));
}

#[test]
fn truncated_sequences_are_invalid() {
    assert!(!validate_utf8(&vec![0xc3]));
    assert!(!validate_utf8(&vec![0xe2, 0x82]));
    assert!(!validate_utf8(&vec![0xf0, 0x9f, 0x98]));
}

#[test]
fn overlong_encodings_are_invalid() {
    // NUL as two bytes, '/' as two bytes, U+07FF range value as three bytes.
    assert!(!validate_utf8(&vec![0xc0, 0x80]));
    assert!(!validate_utf8(&vec![0xc1, 0xaf]));
    assert!(!validate_utf8(&vec![0xe0, 0x80, 0xaf]));
    assert!(!validate_utf8(&vec![0xf0, 0x80, 0x80, 0xaf]));
}

#[test]
fn surrogate_range_is_invalid() {
    // U+D800 and U+DFFF
    assert!(!validate_utf8(&vec![0xed, 0xa0, 0x80]));
    assert!(!validate_utf8(&vec![0xed, 0xbf, 0xbf]));
}

#[test]
fn values_past_the_last_scalar_are_invalid() {
    // U+110000
    assert!(!validate_utf8(&vec![0xf4, 0x90, 0x80, 0x80]));
    assert!(!validate_utf8(&vec![0xf8, 0x88, 0x80, 0x80]));
}

#[test]
fn boundary_scalars_are_valid() {
    // U+007F, U+0080, U+07FF, U+0800, U+FFFD, U+10FFFF
    assert!(validate_utf8(&vec![0x7f]));
    assert!(validate_utf8(&vec![0xc2, 0x80]));
    assert!(validate_utf8(&vec![0xdf, 0xbf]));
    assert!(validate_utf8(&vec![0xe0, 0xa0, 0x80]));
    assert!(validate_utf8(&vec![0xef, 0xbf, 0xbd]));
    assert!(validate_utf8(&vec![0xf4, 0x8f, 0xbf, 0xbf]));
}

#[test]
fn invalid_tail_spoils_a_valid_prefix() {
    assert!(!validate_utf8(&vec![0x68, 0x69, 0xc0, 0x80]));
}

#[test]
fn agrees_with_the_standard_library() {
    let cases: Vec<Vec<u8>> = vec![
        b"hello".to_vec(),
        vec![0xc3, 0xa9],
        vec![0xed, 0x9f, 0xbf],
        vec![0xee, 0x80, 0x80],
        vec![0xed, 0xa0, 0x80],
        vec![0xf4, 0x90, 0x80, 0x80],
        vec![0xc2],
        vec![0x80, 0x41],
        vec![0xf0, 0x9f, 0x98, 0x80, 0x21],
    ];
    for bytes in cases {
        assert_eq!(validate_utf8(&bytes), std::str::from_utf8(&bytes).is_ok());
    }
}
