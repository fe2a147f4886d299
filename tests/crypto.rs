use noters::crypto::Crypto;
use noters::error::NoterError;

#[test]
fn decrypt_inverts_encrypt() {
    let c = Crypto::new("secret");
    for data in [&b""[..], &b"a"[..], &b"hello world"[..], &[0u8, 255, 7, 128][..]] {
        let text = c.encrypt(data).unwrap();
        assert_eq!(c.decrypt(&text).unwrap(), data.to_vec());
    }
}

#[test]
fn envelope_is_base64_of_nonce_ciphertext_and_tag() {
    let c = Crypto::new("secret");
    let text = c.encrypt(b"abc").unwrap();
    // 12 + 3 + 16 = 31 bytes, which base64 writes in 44 characters.
    assert_eq!(text.len(), 44);
    assert!(!text.contains("abc"));
}

#[test]
fn encrypt_twice_gives_two_texts() {
    let c = Crypto::new("secret");
    let a = c.encrypt(b"same").unwrap();
    let b = c.encrypt(b"same").unwrap();
    assert_ne!(a, b);
    assert_eq!(c.decrypt(&a).unwrap(), b"same".to_vec());
    assert_eq!(c.decrypt(&b).unwrap(), b"same".to_vec());
}

#[test]
fn flipping_any_byte_makes_decrypt_fail() {
    let c = Crypto::new("secret");
    let text = c.encrypt(b"the quick brown fox").unwrap();
    let bytes = text.as_bytes().to_vec();
    for i in 0..bytes.len() {
        let mut changed = bytes.clone();
        changed[i] ^= 0x01;
        let s = String::from_utf8(changed).unwrap();
        assert!(matches!(c.decrypt(&s), Err(NoterError::Encryption(_))), "position {}", i);
    }
}

#[test]
fn short_envelope_fails() {
    let c = Crypto::new("secret");
    // "AAAA" decodes to three bytes, fewer than a nonce.
    assert!(matches!(c.decrypt("AAAA"), Err(NoterError::Encryption(_))));
    assert!(matches!(c.decrypt(""), Err(NoterError::Encryption(_))));
}

#[test]
fn malformed_base64_fails() {
    let c = Crypto::new("secret");
    assert!(matches!(c.decrypt("not base64!"), Err(NoterError::Encryption(_))));
}

#[test]
fn wrong_key_fails() {
    let a = Crypto::new("one");
    let b = Crypto::new("two");
    let text = a.encrypt(b"private").unwrap();
    assert!(matches!(b.decrypt(&text), Err(NoterError::Encryption(_))));
    assert_eq!(Crypto::new("one").decrypt(&text).unwrap(), b"private".to_vec());
}

#[test]
fn truncated_envelope_fails() {
    let c = Crypto::new("secret");
    let text = c.encrypt(b"some longer text").unwrap();
    let cut = &text[..text.len() - 4];
    assert!(matches!(c.decrypt(cut), Err(NoterError::Encryption(_))));
}
