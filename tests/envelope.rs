use lockset::crypto::{
    decode_wrapped_key, decrypt_with_data_key, encrypt_with_data_key, plaintext_text, seal_with_nonce,
    sha256_hash, EncryptedPayload, NONCE_SIZE, TAG_SIZE,
};
use lockset::errors::AppError;

const KEY: [u8; 32] = [7u8; 32];
const NONCE: [u8; 12] = [1, 2, 3, 4, 5, 6, 7, 8, 9, 10, 11, 12];

#[test]
fn sha256_of_hello() {
    assert_eq!(
        sha256_hash(b"hello"),
        "2cf24dba5fb0a30e26e83b2ac5b9e29e1b161e5c1fa7425e73043362938b9824"
    );
    assert_eq!(
        sha256_hash(b""),
        "e3b0c44298fc1c149afbf4c8996fb92427ae41e4649b934ca495991b7852b855"
    );
}

#[test]
fn envelope_round_trip_hello() {
    let sealed = encrypt_with_data_key(Some(KEY.to_vec()), Some(vec![0xab, 0x01]), b"hello").unwrap();
    assert_eq!(sealed.sha256sum, "2cf24dba5fb0a30e26e83b2ac5b9e29e1b161e5c1fa7425e73043362938b9824");
    assert_eq!(sealed.encrypted_key, "ab01");
    let bytes = hex::decode(&sealed.encrypted_blob).unwrap();
    assert!(bytes.len() >= 12 + 5 + 16);
    assert_eq!(bytes.len(), NONCE_SIZE + 5 + TAG_SIZE);
    let opened = decrypt_with_data_key(Some(KEY.to_vec()), &sealed.encrypted_blob).unwrap();
    assert_eq!(opened, b"hello");
    let payload = EncryptedPayload::new(9, sealed);
    assert_eq!(payload.dek_id, 9);
}

#[test]
fn blob_starts_with_its_nonce() {
    let blob = seal_with_nonce(&KEY, &NONCE, b"value").unwrap();
    let bytes = hex::decode(&blob).unwrap();
    assert_eq!(&bytes[..12], &NONCE);
    assert_eq!(blob, blob.to_lowercase());
    assert_ne!(&bytes[12..], b"value");
    assert_eq!(decrypt_with_data_key(Some(KEY.to_vec()), &blob).unwrap(), b"value");
}

#[test]
fn sealing_is_fixed_by_key_nonce_and_plaintext() {
    let a = seal_with_nonce(&KEY, &NONCE, b"same").unwrap();
    let b = seal_with_nonce(&KEY, &NONCE, b"same").unwrap();
    assert_eq!(a, b);
}

#[test]
fn encrypting_twice_uses_fresh_nonces() {
    let a = encrypt_with_data_key(Some(KEY.to_vec()), Some(vec![1]), b"same").unwrap();
    let b = encrypt_with_data_key(Some(KEY.to_vec()), Some(vec![1]), b"same").unwrap();
    assert_ne!(a.encrypted_blob, b.encrypted_blob);
    assert_eq!(a.sha256sum, b.sha256sum);
}

#[test]
fn empty_plaintext_round_trips() {
    let blob = seal_with_nonce(&KEY, &NONCE, b"").unwrap();
    assert_eq!(hex::decode(&blob).unwrap().len(), NONCE_SIZE + TAG_SIZE);
    assert_eq!(decrypt_with_data_key(Some(KEY.to_vec()), &blob).unwrap(), b"");
}

#[test]
fn missing_kms_parts_are_kms_errors() {
    assert!(matches!(encrypt_with_data_key(None, Some(vec![1]), b"x"), Err(AppError::KmsError(_))));
    assert!(matches!(encrypt_with_data_key(Some(KEY.to_vec()), None, b"x"), Err(AppError::KmsError(_))));
    assert!(matches!(decrypt_with_data_key(None, "00"), Err(AppError::KmsError(_))));
}

#[test]
fn wrong_key_length_is_a_crypto_error() {
    assert!(matches!(encrypt_with_data_key(Some(vec![1; 16]), Some(vec![1]), b"x"), Err(AppError::CryptoError(_))));
    let blob = seal_with_nonce(&KEY, &NONCE, b"v").unwrap();
    assert!(matches!(decrypt_with_data_key(Some(vec![7; 31]), &blob), Err(AppError::CryptoError(_))));
    assert!(matches!(seal_with_nonce(&[0u8; 33], &NONCE, b"v"), Err(AppError::CryptoError(_))));
}

#[test]
fn malformed_blobs_are_crypto_errors() {
    assert!(matches!(decrypt_with_data_key(Some(KEY.to_vec()), "zz"), Err(AppError::CryptoError(_))));
    assert!(matches!(decrypt_with_data_key(Some(KEY.to_vec()), "abc"), Err(AppError::CryptoError(_))));
    assert_eq!(
        decrypt_with_data_key(Some(KEY.to_vec()), "0102030405060708090a0b"),
        Err(AppError::CryptoError("Invalid encrypted data format.".into()))
    );
}

#[test]
fn tampered_or_foreign_blobs_do_not_open() {
    let blob = seal_with_nonce(&KEY, &NONCE, b"secret").unwrap();
    let mut bytes = hex::decode(&blob).unwrap();
    let last = bytes.len() - 1;
    bytes[last] ^= 1;
    let tampered = hex::encode(&bytes);
    assert!(matches!(decrypt_with_data_key(Some(KEY.to_vec()), &tampered), Err(AppError::CryptoError(_))));
    assert!(matches!(decrypt_with_data_key(Some(vec![8u8; 32]), &blob), Err(AppError::CryptoError(_))));
}

#[test]
fn uppercase_blob_hex_opens() {
    let blob = seal_with_nonce(&KEY, &NONCE, b"abc").unwrap();
    assert_eq!(decrypt_with_data_key(Some(KEY.to_vec()), &blob.to_uppercase()).unwrap(), b"abc");
}

#[test]
fn wrapped_key_hex_decodes() {
    assert_eq!(decode_wrapped_key("00ff10").unwrap(), vec![0x00, 0xff, 0x10]);
    assert!(matches!(decode_wrapped_key("0g"), Err(AppError::CryptoError(_))));
}

#[test]
fn plaintext_must_be_utf8() {
    assert_eq!(plaintext_text("s3cret".as_bytes().to_vec()).unwrap(), "s3cret");
    assert!(matches!(plaintext_text(vec![0xff, 0xfe]), Err(AppError::CryptoError(_))));
}
