use tl_storage::api_key::{generate_key, key_from_random};
use tl_storage::crypto::{blake3_label, hash_plaintext, hash_text, to_hex};

#[test]
fn generated_key_has_expected_shape() {
    let key = generate_key();
    let (plaintext, prefix, hash) = (key.plaintext, key.prefix, key.hash);
    assert!(plaintext.starts_with("tlg_"));
    assert!(plaintext.contains(&format!("_{prefix}_")));
    assert_eq!(prefix.len(), 5);
    assert_eq!(hash.len(), 32);

    let recomputed = hash_plaintext(&plaintext);
    assert_eq!(hash, recomputed);
}

#[test]
fn generated_keys_are_unique() {
    let a = generate_key().plaintext;
    let b = generate_key().plaintext;
    assert_ne!(a, b);
}

#[test]
fn generated_key_is_prefix_then_full_encoding() {
    let key = generate_key();
    let rest = key.plaintext.strip_prefix("tlg_").unwrap();
    let (prefix, encoded) = rest.split_at(5);
    assert_eq!(prefix, key.prefix);
    assert!(encoded.starts_with('_'));
    let encoded = &encoded[1..];
    assert_eq!(encoded.len(), 43);
    assert!(encoded.starts_with(prefix));
    assert!(encoded
        .chars()
        .all(|c| c.is_ascii_alphanumeric() || c == '-' || c == '_'));
}

#[test]
fn hash_text_is_labelled_sha256_hex() {
    assert_eq!(
        hash_text("abc"),
        "sha256:v1:ba7816bf8f01cfea414140de5dae2223b00361a396177a9cb410ff61f20015ad"
    );
}

#[test]
fn hex_has_two_lowercase_digits_per_byte() {
    assert_eq!(to_hex(&[0x00, 0x0f, 0xa0, 0xff]), "000fa0ff");
}

#[test]
fn key_from_known_bytes_is_exact() {
    let bytes: [u8; 32] = std::array::from_fn(|i| i as u8);
    let key = key_from_random(&bytes);
    assert_eq!(key.plaintext, "tlg_AAECA_AAECAwQFBgcICQoLDA0ODxAREhMUFRYXGBkaGxwdHh8");
    assert_eq!(key.prefix, "AAECA");
    assert_eq!(to_hex(&key.hash), "31c6ded816a4e526ec2dbf8c1723fd0c0dc9acfb3c256bcbdd50d877bec45435");
}

#[test]
fn blake3_label_of_empty_input() {
    assert_eq!(
        blake3_label(b""),
        "blake3:v1:af1349b9f5f9a1a6a0404dea36dcc9499bcb25c9adc112b7cc9a93cae41f3262"
    );
}

#[test]
fn keys_from_different_bytes_differ() {
    let a = [7u8; 32];
    let mut b = a;
    b[31] = 8;
    let (ka, kb) = (key_from_random(&a), key_from_random(&b));
    assert_ne!(ka.plaintext, kb.plaintext);
    assert_eq!(ka.prefix, kb.prefix);
    assert_eq!(key_from_random(&a).plaintext, ka.plaintext);
}
