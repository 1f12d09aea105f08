use fincept_stream::hash::{bytes_to_hex, sha256_hash};

#[test]
fn sha256_matches_the_published_vectors() {
    assert_eq!(
        sha256_hash("abc".to_string()),
        "ba7816bf8f01cfea414140de5dae2223b00361a396177a9cb410ff61f20015ad"
    );
    assert_eq!(
        sha256_hash(String::new()),
        "e3b0c44298fc1c149afbf4c8996fb92427ae41e4649b934ca495991b7852b855"
    );
}

#[test]
fn sha256_is_sixty_four_hex_chars_and_input_sensitive() {
    let a = sha256_hash("app_id:secret".to_string());
    let b = sha256_hash("app_id:secret2".to_string());
    assert_eq!(a.len(), 64);
    assert!(a.chars().all(|c| c.is_ascii_hexdigit() && !c.is_ascii_uppercase()));
    assert_ne!(a, b);
}

#[test]
fn hex_rendering_is_two_digits_per_byte_high_nibble_first() {
    assert_eq!(bytes_to_hex(&vec![]), "");
    assert_eq!(bytes_to_hex(&vec![0x00, 0x0f, 0xa5, 0xff]), "000fa5ff");
}
