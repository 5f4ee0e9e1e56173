use ping0::digest::{hash_with_salt, hex_encode};
use sha2::Digest;

#[test]
fn digest_of_nothing() {
    assert_eq!(
        hash_with_salt("", ""),
        "e3b0c44298fc1c149afbf4c8996fb92427ae41e4649b934ca495991b7852b855"
    );
}

#[test]
fn salt_comes_before_password() {
    assert_eq!(
        hash_with_salt("bc", "a"),
        "ba7816bf8f01cfea414140de5dae2223b00361a396177a9cb410ff61f20015ad"
    );
    assert_eq!(
        hash_with_salt("world", "hello "),
        "b94d27b9934d3e08a52e52d7da7dabfac484efe37a5380ee9088f7ace2efcde9"
    );
    assert_eq!(hash_with_salt("c", "ab"), hash_with_salt("bc", "a"));
    assert_ne!(hash_with_salt("a", "bc"), hash_with_salt("bc", "a"));
}

#[test]
fn digest_is_small_hexadecimal() {
    let h = hash_with_salt("secret1", "NaCl");
    assert_eq!(h.len(), 64);
    assert!(h.chars().all(|c| c.is_ascii_digit() || ('a'..='f').contains(&c)));
    assert_ne!(h, "secret1");
    assert_ne!(h, hash_with_salt("secret1", "other"));
    assert_ne!(h, hash_with_salt("secret2", "NaCl"));
    assert_eq!(h, hash_with_salt("secret1", "NaCl"));
}

#[test]
fn digest_agrees_with_the_crates() {
    let mut hasher = sha2::Sha256::new();
    hasher.update("sält".as_bytes());
    hasher.update("pässwörd".as_bytes());
    assert_eq!(hash_with_salt("pässwörd", "sält"), hex::encode(hasher.finalize()));
}

#[test]
fn bytes_in_small_hexadecimal() {
    assert_eq!(hex_encode(&[]), "");
    assert_eq!(hex_encode(&[0x00]), "00");
    assert_eq!(hex_encode(&[0x09, 0x0a, 0x0f, 0x10, 0x9f, 0xa0, 0xff]), "090a0f109fa0ff");
    assert_eq!(hex_encode(b"Hello world!"), "48656c6c6f20776f726c6421");
    let all: Vec<u8> = (0..=255).collect();
    assert_eq!(hex_encode(&all), hex::encode(&all));
}
