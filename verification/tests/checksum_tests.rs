use mariadb_vm::checksum::{digest_matches, to_hex, verify_bytes};

const EMPTY_SHA256: &str = "e3b0c44298fc1c149afbf4c8996fb92427ae41e4649b934ca495991b7852b855";
const ABC_SHA256: &str = "ba7816bf8f01cfea414140de5dae2223b00361a396177a9cb410ff61f20015ad";

#[test]
fn digest_of_empty_input_matches_known_value() {
    assert!(verify_bytes(&Vec::new(), EMPTY_SHA256));
}

#[test]
fn digest_of_abc_matches_known_value() {
    let data: Vec<u8> = b"abc".to_vec();
    assert!(verify_bytes(&data, ABC_SHA256));
}

#[test]
fn digest_mismatch_is_reported() {
    let data: Vec<u8> = b"abc".to_vec();
    assert!(!verify_bytes(&data, EMPTY_SHA256));
    assert!(!verify_bytes(&Vec::new(), ABC_SHA256));
}

#[test]
fn upper_case_expected_digest_does_not_match() {
    let upper = ABC_SHA256.to_uppercase();
    let data: Vec<u8> = b"abc".to_vec();
    assert!(!verify_bytes(&data, &upper));
}

#[test]
fn hex_spelling_is_lower_case_two_digits_a_byte() {
    assert_eq!(to_hex(&vec![]), "");
    assert_eq!(to_hex(&vec![0x00]), "00");
    assert_eq!(to_hex(&vec![0x0f, 0xa0, 0xff]), "0fa0ff");
    assert_eq!(to_hex(&vec![0xde, 0xad, 0xbe, 0xef]), "deadbeef");
}

#[test]
fn digest_comparison_is_exact() {
    assert!(digest_matches(&vec![0x00, 0xff], "00ff"));
    assert!(!digest_matches(&vec![0x00, 0xff], "00fe"));
    assert!(!digest_matches(&vec![0x00, 0xff], "00ff00"));
    assert!(!digest_matches(&vec![0x00, 0xff], "00FF"));
}
