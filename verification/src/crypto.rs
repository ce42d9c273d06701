//! The crypto engine: AES-256-CBC over caller-supplied buffers, with the
//! key and IV handed in from configuration as base64 text.
//!
//! The cipher itself is OpenSSL's; its results are named by the
//! uninterpreted functions below, and everything around the calls --
//! length validation, error selection, the inverse relationship between
//! the two directions -- is stated and verified here.

use vstd::prelude::*;

verus! {

#[derive(Clone, Copy, Debug, PartialEq, Eq, Structural)]
pub enum CryptoError {
    /// The key is not exactly 32 bytes.
    InvalidKeyLength,
    /// The IV is not exactly 16 bytes.
    InvalidIvLength,
    /// The configured key or IV text is not valid base64.
    InvalidKeyEncoding,
    /// The buffer is not a valid ciphertext under the given key and IV.
    DecryptionFailed,
}

pub const KEY_LEN: usize = 32;

pub const IV_LEN: usize = 16;

/// Upper bound on buffers handed to the cipher; OpenSSL refuses buffers
/// longer than a C `int` can count.
pub const MAX_DATA_LEN: usize = 0x7fff_0000;

/// The AES-256-CBC encryption of `plain` under `key` and `iv`, with PKCS
/// padding: what `openssl::symm::encrypt` returns.
pub uninterp spec fn aes_enc(plain: Seq<u8>, key: Seq<u8>, iv: Seq<u8>) -> Seq<u8>;

/// The AES-256-CBC decryption of `cipher` under `key` and `iv`: what
/// `openssl::symm::decrypt` returns, `None` standing for its padding
/// failure.
pub uninterp spec fn aes_dec(cipher: Seq<u8>, key: Seq<u8>, iv: Seq<u8>) -> Option<Seq<u8>>;

/// The standard-alphabet base64 decoding of `text`: what `base64::decode`
/// returns, `None` standing for its decode error.
pub uninterp spec fn base64_decoding(text: Seq<char>) -> Option<Seq<u8>>;

/// Relies on `openssl::symm::encrypt` with `Cipher::aes_256_cbc`: AES-256-CBC
/// with PKCS padding, a function of (data, key, iv) alone.  With a 32-byte
/// key, a 16-byte IV and bounded data the call does not fail: `Crypter::new`
/// accepts the matching key and IV lengths, and update/finalize refuse only
/// buffers longer than a C `int` can count.  The ciphertext is the plaintext
/// rounded up to the next 16-byte boundary (block-aligned input gains one
/// whole padding block), and decrypting it with the same key and IV gives
/// the plaintext back.
#[verifier::external_body]
fn aes_256_cbc_encrypt(data: &[u8], key: &[u8], iv: &[u8]) -> (r: Vec<u8>)
    requires
        key@.len() == KEY_LEN,
        iv@.len() == IV_LEN,
        data@.len() <= MAX_DATA_LEN,
    ensures
        r@ == aes_enc(data@, key@, iv@),
        r@.len() == (data@.len() / 16 + 1) * 16,
        aes_dec(r@, key@, iv@) == Some(data@),
{
    openssl::symm::encrypt(openssl::symm::Cipher::aes_256_cbc(), key, Some(iv), data).unwrap()
}

/// Relies on `openssl::symm::decrypt` with `Cipher::aes_256_cbc`: the
/// inverse transform, a function of (data, key, iv) alone.  It fails
/// exactly when the buffer is not a well-padded AES-256-CBC ciphertext
/// under the key and IV, which the `Option` in `aes_dec` models.
#[verifier::external_body]
fn aes_256_cbc_decrypt(data: &[u8], key: &[u8], iv: &[u8]) -> (r: Result<Vec<u8>, CryptoError>)
    requires
        key@.len() == KEY_LEN,
        iv@.len() == IV_LEN,
        data@.len() <= MAX_DATA_LEN,
    ensures
        r is Ok <==> aes_dec(data@, key@, iv@) is Some,
        r is Ok ==> r->Ok_0@ == aes_dec(data@, key@, iv@)->Some_0,
        r is Err ==> r->Err_0 == CryptoError::DecryptionFailed,
{
    openssl::symm::decrypt(openssl::symm::Cipher::aes_256_cbc(), key, Some(iv), data)
        .map_err(|_e| CryptoError::DecryptionFailed)
}

/// Relies on `base64::decode`: standard-alphabet base64 decoding, a
/// function of the input text alone; it fails exactly on text that is not
/// valid base64, which the `Option` in `base64_decoding` models.
#[verifier::external_body]
fn base64_decode(text: &str) -> (r: Result<Vec<u8>, CryptoError>)
    ensures
        r is Ok <==> base64_decoding(text@) is Some,
        r is Ok ==> r->Ok_0@ == base64_decoding(text@)->Some_0,
        r is Err ==> r->Err_0 == CryptoError::InvalidKeyEncoding,
{
    base64::decode(text).map_err(|_e| CryptoError::InvalidKeyEncoding)
}

/// Encrypts a buffer with AES-256-CBC under the supplied key and IV.
///
/// Succeeds exactly when the key is 32 bytes and the IV 16 bytes; the
/// ciphertext is block-aligned, one padding block past the plaintext, and
/// decrypting it under the same key and IV yields the plaintext again.
pub fn encrypt_data(data: &[u8], key: &[u8], iv: &[u8]) -> (r: Result<Vec<u8>, CryptoError>)
    requires
        data@.len() <= MAX_DATA_LEN,
    ensures
        r is Ok <==> key@.len() == KEY_LEN && iv@.len() == IV_LEN,
        key@.len() != KEY_LEN <==> (r is Err && r->Err_0 == CryptoError::InvalidKeyLength),
        (key@.len() == KEY_LEN && iv@.len() != IV_LEN) <==> (r is Err && r->Err_0
            == CryptoError::InvalidIvLength),
        r is Ok ==> r->Ok_0@ == aes_enc(data@, key@, iv@),
        r is Ok ==> r->Ok_0@.len() == (data@.len() / 16 + 1) * 16,
        r is Ok ==> aes_dec(r->Ok_0@, key@, iv@) == Some(data@),
{
    if key.len() != KEY_LEN {
        return Err(CryptoError::InvalidKeyLength);
    }
    if iv.len() != IV_LEN {
        return Err(CryptoError::InvalidIvLength);
    }
    Ok(aes_256_cbc_encrypt(data, key, iv))
}

/// Decrypts a buffer produced by `encrypt_data` under the same key and IV.
///
/// Rejects a key that is not 32 bytes and an IV that is not 16 bytes with
/// the matching error; otherwise succeeds exactly when the buffer is a
/// valid ciphertext under the pair, and then returns its plaintext.
pub fn decrypt_data(data: &[u8], key: &[u8], iv: &[u8]) -> (r: Result<Vec<u8>, CryptoError>)
    requires
        data@.len() <= MAX_DATA_LEN,
    ensures
        key@.len() != KEY_LEN <==> (r is Err && r->Err_0 == CryptoError::InvalidKeyLength),
        (key@.len() == KEY_LEN && iv@.len() != IV_LEN) <==> (r is Err && r->Err_0
            == CryptoError::InvalidIvLength),
        r is Ok <==> key@.len() == KEY_LEN && iv@.len() == IV_LEN && aes_dec(
            data@,
            key@,
            iv@,
        ) is Some,
        r is Ok ==> r->Ok_0@ == aes_dec(data@, key@, iv@)->Some_0,
        (key@.len() == KEY_LEN && iv@.len() == IV_LEN && aes_dec(data@, key@, iv@) is None) ==> (
        r is Err && r->Err_0 == CryptoError::DecryptionFailed),
{
    if key.len() != KEY_LEN {
        return Err(CryptoError::InvalidKeyLength);
    }
    if iv.len() != IV_LEN {
        return Err(CryptoError::InvalidIvLength);
    }
    aes_256_cbc_decrypt(data, key, iv)
}

/// Decodes the configured base64 key and IV texts and validates their
/// lengths: the key must decode to 32 bytes and the IV to 16.
///
/// Fails with `InvalidKeyEncoding` exactly when either text is not valid
/// base64, with `InvalidKeyLength` / `InvalidIvLength` exactly when a
/// decoded buffer has the wrong size.
pub fn load_keys(key_text: &str, iv_text: &str) -> (r: Result<(Vec<u8>, Vec<u8>), CryptoError>)
    ensures
        (base64_decoding(key_text@) is None || base64_decoding(iv_text@) is None) <==> (r is Err
            && r->Err_0 == CryptoError::InvalidKeyEncoding),
        (base64_decoding(key_text@) is Some && base64_decoding(iv_text@) is Some && base64_decoding(
            key_text@,
        )->Some_0.len() != KEY_LEN) <==> (r is Err && r->Err_0 == CryptoError::InvalidKeyLength),
        (base64_decoding(key_text@) is Some && base64_decoding(iv_text@) is Some && base64_decoding(
            key_text@,
        )->Some_0.len() == KEY_LEN && base64_decoding(iv_text@)->Some_0.len() != IV_LEN) <==> (
        r is Err && r->Err_0 == CryptoError::InvalidIvLength),
        r is Ok <==> (base64_decoding(key_text@) is Some && base64_decoding(iv_text@) is Some
            && base64_decoding(key_text@)->Some_0.len() == KEY_LEN && base64_decoding(
            iv_text@,
        )->Some_0.len() == IV_LEN),
        r is Ok ==> r->Ok_0.0@ == base64_decoding(key_text@)->Some_0 && r->Ok_0.1@
            == base64_decoding(iv_text@)->Some_0,
{
    let key = base64_decode(key_text)?;
    let iv = base64_decode(iv_text)?;
    if key.len() != KEY_LEN {
        return Err(CryptoError::InvalidKeyLength);
    }
    if iv.len() != IV_LEN {
        return Err(CryptoError::InvalidIvLength);
    }
    Ok((key, iv))
}

} // verus!
