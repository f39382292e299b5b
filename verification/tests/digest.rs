use lowell_core::digest::{sha256_hex, to_hex_lower};

#[test]
fn sha256_of_nothing() {
    assert_eq!(
        sha256_hex(&[]),
        "e3b0c44298fc1c149afbf4c8996fb92427ae41e4649b934ca495991b7852b855"
    );
}

#[test]
fn sha256_of_abc() {
    assert_eq!(
        sha256_hex(b"abc"),
        "ba7816bf8f01cfea414140de5dae2223b00361a396177a9cb410ff61f20015ad"
    );
}

#[test]
fn sha256_is_not_the_input() {
    let input = [0xabu8; 32];
    assert_ne!(sha256_hex(&input), to_hex_lower(&input));
}

#[test]
fn digest_is_repeatable_and_well_formed() {
    let data: Vec<u8> = (0..=255u8).collect();
    let first = sha256_hex(&data);
    let second = sha256_hex(&data);
    assert_eq!(first, second);
    assert_eq!(first.len(), 64);
    assert!(first.chars().all(|c| matches!(c, '0'..='9' | 'a'..='f')));
    assert_eq!(
        first,
        "40aff2e9d2d8922e47afd4648e6967497158785fbd1da870e7110266bf944880"
    );
}

#[test]
fn one_changed_byte_changes_the_digest() {
    let mut data = vec![0u8; 1024];
    let before = sha256_hex(&data);
    for at in [0usize, 1, 511, 1023] {
        data[at] ^= 1;
        assert_ne!(sha256_hex(&data), before);
        data[at] ^= 1;
    }
    assert_eq!(sha256_hex(&data), before);
}

#[test]
fn hex_is_two_lowercase_digits_per_byte() {
    assert_eq!(to_hex_lower(&[]), "");
    assert_eq!(to_hex_lower(&[0x00]), "00");
    assert_eq!(to_hex_lower(&[0x0f, 0xf0]), "0ff0");
    assert_eq!(to_hex_lower(&[0xde, 0xad, 0xbe, 0xef]), "deadbeef");
    assert_eq!(
        to_hex_lower(&[0x01, 0x23, 0x45, 0x67, 0x89, 0xab, 0xcd, 0xef]),
        "0123456789abcdef"
    );
    assert_eq!(to_hex_lower(&[0x9a, 0xa9, 0x0a, 0xa0]), "9aa90aa0");
}
