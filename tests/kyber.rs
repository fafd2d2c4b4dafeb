use pqc_chat::crypto::kyber::{
    KyberError, KyberKeyExchange, KyberSession, CIPHERTEXT_BYTES, MAX_DERIVED_KEY_LEN, PUBLIC_KEY_BYTES,
    SHARED_SECRET_BYTES,
};

#[test]
fn test_key_exchange() {
    // Alice generates her key pair
    let alice = KyberKeyExchange::new();
    let alice_public_bytes = alice.public_key_bytes();

    // Bob receives Alice's public key and encapsulates
    let alice_public = KyberKeyExchange::public_key_from_bytes(&alice_public_bytes).unwrap();
    let (ciphertext, bob_shared_secret) = KyberKeyExchange::encapsulate(&alice_public);

    // Alice decapsulates to get the same shared secret
    let alice_shared_secret = alice.decapsulate(&ciphertext).unwrap();

    // Both should have the same shared secret
    assert_eq!(alice_shared_secret, bob_shared_secret);
}

#[test]
fn test_session_key_derivation() {
    let session = KyberSession::new(vec![1, 2, 3, 4, 5, 6, 7, 8]);
    let key1 = session.derive_key(b"audio", 32);
    let key2 = session.derive_key(b"video", 32);

    // Different contexts should produce different keys
    assert_ne!(key1, key2);
    assert_eq!(key1.len(), 32);
    assert_eq!(key2.len(), 32);
}

#[test]
fn key_exchange_repeats_with_fresh_keys() {
    for _ in 0..5 {
        let alice = KyberKeyExchange::new();
        let pk = KyberKeyExchange::public_key_from_bytes(&alice.public_key_bytes()).unwrap();
        let (ct, ss) = KyberKeyExchange::encapsulate(&pk);
        assert_eq!(ct.len(), CIPHERTEXT_BYTES);
        assert_eq!(ss.len(), SHARED_SECRET_BYTES);
        assert_eq!(alice.decapsulate(&ct).unwrap(), ss);
    }
}

#[test]
fn key_lengths() {
    let kx = KyberKeyExchange::new();
    assert_eq!(kx.public_key_bytes().len(), PUBLIC_KEY_BYTES);
    assert_eq!(PUBLIC_KEY_BYTES, 1568);
}

#[test]
fn public_key_of_wrong_length_is_refused() {
    let r = KyberKeyExchange::public_key_from_bytes(&[0u8; 10]);
    assert!(matches!(r, Err(KyberError::InvalidPublicKeyLength)));
    let r = KyberKeyExchange::public_key_from_bytes(&vec![0u8; PUBLIC_KEY_BYTES + 1]);
    assert!(matches!(r, Err(KyberError::InvalidPublicKeyLength)));
}

#[test]
fn ciphertext_of_wrong_length_is_refused() {
    let kx = KyberKeyExchange::new();
    assert!(matches!(kx.decapsulate(&[1, 2, 3]), Err(KyberError::InvalidCiphertextLength)));
    assert!(matches!(kx.decapsulate(&[]), Err(KyberError::InvalidCiphertextLength)));
}

#[test]
fn foreign_ciphertext_decapsulates_without_error() {
    let alice = KyberKeyExchange::new();
    let mallory = KyberKeyExchange::new();
    let pk = KyberKeyExchange::public_key_from_bytes(&mallory.public_key_bytes()).unwrap();
    let (ct, ss) = KyberKeyExchange::encapsulate(&pk);
    let other = alice.decapsulate(&ct).unwrap();
    assert_eq!(other.len(), SHARED_SECRET_BYTES);
    assert_ne!(other, ss);
    assert_ne!(other, ct[..SHARED_SECRET_BYTES].to_vec());
    // Decapsulation is deterministic.
    assert_eq!(alice.decapsulate(&ct).unwrap(), other);
}

#[test]
fn derived_keys_have_requested_length_and_are_deterministic() {
    let session = KyberSession::new(vec![9; 32]);
    for len in [0usize, 1, 7, 8, 9, 16, 33, 64] {
        let k = session.derive_key(b"audio", len);
        assert_eq!(k.len(), len);
        assert_eq!(k, session.derive_key(b"audio", len));
    }
    let short = session.derive_key(b"audio", 5);
    let long = session.derive_key(b"audio", 20);
    assert_eq!(&long[..5], &short[..]);
    assert_eq!(session.shared_secret(), &[9u8; 32][..]);
}

#[test]
fn derived_keys_depend_on_secret() {
    let a = KyberSession::new(vec![1; 32]).derive_key(b"audio", 32);
    let b = KyberSession::new(vec![2; 32]).derive_key(b"audio", 32);
    assert_ne!(a, b);
}

#[test]
fn derive_key_is_hkdf_sha256() {
    // RFC 5869, test case 3: empty salt and info.
    let session = KyberSession::new(vec![0x0b; 22]);
    let okm = session.derive_key(b"", 42);
    let expected: Vec<u8> = vec![
        0x8d, 0xa4, 0xe7, 0x75, 0xa5, 0x63, 0xc1, 0x8f, 0x71, 0x5f, 0x80, 0x2a, 0x06, 0x3c, 0x5a, 0x31, 0xb8, 0xa1,
        0x1f, 0x5c, 0x5e, 0xe1, 0x87, 0x9e, 0xc3, 0x45, 0x4e, 0x5f, 0x3c, 0x73, 0x8d, 0x2d, 0x9d, 0x20, 0x13, 0x95,
        0xfa, 0xa4, 0xb6, 0x1a, 0x96, 0xc8,
    ];
    assert_eq!(okm, expected);
}

#[test]
fn longest_derived_key() {
    let session = KyberSession::new(vec![3; 32]);
    assert_eq!(session.derive_key(b"video", MAX_DERIVED_KEY_LEN).len(), MAX_DERIVED_KEY_LEN);
}
