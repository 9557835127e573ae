use pow_solver::compare::verify_nonce;
use pow_solver::hexcodec::hex_decode;
use pow_solver::numeral::dec_string;

#[test]
fn hex_decode_accepts_both_cases() {
    assert_eq!(hex_decode(b"0aFf"), Some(vec![10, 255]));
    assert_eq!(hex_decode(b"DEADbeef"), Some(vec![0xde, 0xad, 0xbe, 0xef]));
    assert_eq!(hex_decode(b""), Some(vec![]));
}

#[test]
fn hex_decode_rejects_bad_digits() {
    assert_eq!(hex_decode(b"zz"), None);
    assert_eq!(hex_decode(b"0g"), None);
    assert_eq!(hex_decode(b" 00"), None);
}

#[test]
fn hex_decode_rejects_odd_length() {
    assert_eq!(hex_decode(b"f"), None);
    assert_eq!(hex_decode(b"abc"), None);
}

#[test]
fn comparison_reads_the_final_byte() {
    // Equal everywhere but the last byte, where the digest is greater: a
    // comparison that stopped one byte short would wrongly accept this.
    let mut digest = vec![0u8; 32];
    let mut target = vec![0u8; 32];
    digest[31] = 2;
    target[31] = 1;
    assert!(!verify_nonce(&digest, &target));
    // And the mirror image must be accepted.
    assert!(verify_nonce(&target, &digest));
}

#[test]
fn comparison_accepts_equality() {
    let bytes = vec![7u8; 32];
    assert!(verify_nonce(&bytes, &bytes));
}

#[test]
fn comparison_short_circuits_on_the_first_difference() {
    // 0x01ff… <= 0x02000…: the most significant byte decides.
    let mut digest = vec![0xffu8; 32];
    digest[0] = 1;
    let mut target = vec![0u8; 32];
    target[0] = 2;
    assert!(verify_nonce(&digest, &target));
    assert!(!verify_nonce(&target, &digest));
}

#[test]
fn comparison_rejects_length_mismatch() {
    assert!(!verify_nonce(&[0u8; 31], &[0xffu8; 32]));
    assert!(!verify_nonce(&[0u8; 33], &[0xffu8; 32]));
}

#[test]
fn decimal_rendering_matches() {
    assert_eq!(dec_string(0), "0");
    assert_eq!(dec_string(7), "7");
    assert_eq!(dec_string(10), "10");
    assert_eq!(dec_string(25000), "25000");
    assert_eq!(dec_string(u64::MAX), "18446744073709551615");
}
