use continu::crypto::{decrypt_data, encrypt_data, load_keys, CryptoError};

fn test_key() -> Vec<u8> {
    (0u8..32).collect()
}

fn test_iv() -> Vec<u8> {
    (100u8..116).collect()
}

#[test]
fn round_trip_short() {
    let key = test_key();
    let iv = test_iv();
    let plain = b"hello backup world".to_vec();
    let cipher = encrypt_data(&plain, &key, &iv).unwrap();
    let back = decrypt_data(&cipher, &key, &iv).unwrap();
    assert_eq!(back, plain);
}

#[test]
fn round_trip_empty() {
    let key = test_key();
    let iv = test_iv();
    let plain: Vec<u8> = Vec::new();
    let cipher = encrypt_data(&plain, &key, &iv).unwrap();
    assert_eq!(cipher.len(), 16);
    let back = decrypt_data(&cipher, &key, &iv).unwrap();
    assert_eq!(back, plain);
}

#[test]
fn round_trip_block_aligned() {
    let key = test_key();
    let iv = test_iv();
    let plain = vec![7u8; 32];
    let cipher = encrypt_data(&plain, &key, &iv).unwrap();
    // Even block-aligned input gains one whole padding block.
    assert_eq!(cipher.len(), 48);
    let back = decrypt_data(&cipher, &key, &iv).unwrap();
    assert_eq!(back, plain);
}

#[test]
fn ciphertext_length_rounds_up() {
    let key = test_key();
    let iv = test_iv();
    for n in [1usize, 15, 16, 17, 100] {
        let plain = vec![3u8; n];
        let cipher = encrypt_data(&plain, &key, &iv).unwrap();
        assert_eq!(cipher.len(), (n / 16 + 1) * 16);
    }
}

#[test]
fn ciphertext_differs_from_plaintext() {
    let key = test_key();
    let iv = test_iv();
    let plain = vec![0u8; 64];
    let cipher = encrypt_data(&plain, &key, &iv).unwrap();
    assert_ne!(&cipher[..64], &plain[..]);
}

#[test]
fn encrypt_rejects_short_key() {
    let iv = test_iv();
    let r = encrypt_data(b"data", &vec![1u8; 31], &iv);
    assert_eq!(r, Err(CryptoError::InvalidKeyLength));
}

#[test]
fn encrypt_rejects_long_key() {
    let iv = test_iv();
    let r = encrypt_data(b"data", &vec![1u8; 33], &iv);
    assert_eq!(r, Err(CryptoError::InvalidKeyLength));
}

#[test]
fn encrypt_rejects_bad_iv() {
    let key = test_key();
    let r = encrypt_data(b"data", &key, &vec![1u8; 15]);
    assert_eq!(r, Err(CryptoError::InvalidIvLength));
}

#[test]
fn decrypt_rejects_bad_key_and_iv() {
    let key = test_key();
    let iv = test_iv();
    assert_eq!(
        decrypt_data(b"xxxx", &vec![1u8; 8], &iv),
        Err(CryptoError::InvalidKeyLength)
    );
    assert_eq!(
        decrypt_data(b"xxxx", &key, &vec![1u8; 17]),
        Err(CryptoError::InvalidIvLength)
    );
}

#[test]
fn decrypt_rejects_garbage() {
    let key = test_key();
    let iv = test_iv();
    let r = decrypt_data(&vec![5u8; 17], &key, &iv);
    assert_eq!(r, Err(CryptoError::DecryptionFailed));
}

#[test]
fn load_keys_round_trips_configured_values() {
    let key_bytes: Vec<u8> = (0u8..32).collect();
    let iv_bytes: Vec<u8> = (50u8..66).collect();
    let key_text = base64::encode(&key_bytes);
    let iv_text = base64::encode(&iv_bytes);
    let (key, iv) = load_keys(&key_text, &iv_text).unwrap();
    assert_eq!(key, key_bytes);
    assert_eq!(iv, iv_bytes);
}

#[test]
fn load_keys_rejects_bad_base64() {
    let iv_text = base64::encode(&vec![0u8; 16]);
    let r = load_keys("not base64!!", &iv_text);
    assert_eq!(r, Err(CryptoError::InvalidKeyEncoding));
}

#[test]
fn load_keys_rejects_wrong_lengths() {
    let good_iv = base64::encode(&vec![0u8; 16]);
    let short_key = base64::encode(&vec![0u8; 16]);
    assert_eq!(load_keys(&short_key, &good_iv), Err(CryptoError::InvalidKeyLength));
    let good_key = base64::encode(&vec![0u8; 32]);
    let short_iv = base64::encode(&vec![0u8; 8]);
    assert_eq!(load_keys(&good_key, &short_iv), Err(CryptoError::InvalidIvLength));
}
