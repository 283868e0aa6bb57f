use envbro::security::{
    decrypt, decrypt_project_key, decrypt_with_passphrase, encrypt, encrypt_project_key,
    encrypt_with_passphrase, generate_project_key, generate_salt, ProjectKey, SecurityError,
};

#[test]
fn test_envelope_flow() {
    let passphrase = "soy batman";
    let project_key = generate_project_key();

    // 1. Wrap Key
    let (enc_key, salt) = encrypt_project_key(&project_key, passphrase).expect("Key wrap failed");

    // 2. Encrypt Data with Project Key
    let data = b"secret payload";
    let enc_data = encrypt(data, &project_key).expect("Data encrypt failed");

    // 3. Unwrap Key
    let unwrapped_key = decrypt_project_key(&enc_key, &salt, passphrase).expect("Key unwrap failed");
    assert_eq!(project_key, unwrapped_key);

    // 4. Decrypt Data
    let dec_data = decrypt(&enc_data, &unwrapped_key).expect("Data decrypt failed");
    assert_eq!(data, dec_data.as_slice());
}

#[test]
fn test_wrong_passphrase_envelope() {
    let passphrase = "soy batman";
    let project_key = generate_project_key();
    let (enc_key, salt) = encrypt_project_key(&project_key, passphrase).unwrap();

    let wrong_pass = "joker";
    let result = decrypt_project_key(&enc_key, &salt, wrong_pass);
    assert!(result.is_err());
}

#[test]
fn test_encrypt_decrypt_empty_data() {
    let key = generate_project_key();
    let data = b"";
    let enc = encrypt(data, &key).expect("Encryption failed");
    let dec = decrypt(&enc, &key).expect("Decryption failed");
    assert_eq!(dec, data);
}

#[test]
fn encrypted_data_is_nonce_ciphertext_and_tag() {
    let key = ProjectKey([7u8; 32]);
    let enc = encrypt(b"FOO=bar", &key).unwrap();
    assert_eq!(enc.len(), 12 + 7 + 16);
    assert_eq!(decrypt(&enc, &key).unwrap(), b"FOO=bar".to_vec());
}

#[test]
fn fresh_nonce_for_each_encryption() {
    let key = ProjectKey([1u8; 32]);
    let a = encrypt(b"same", &key).unwrap();
    let b = encrypt(b"same", &key).unwrap();
    assert_ne!(a, b);
    assert_eq!(decrypt(&a, &key).unwrap(), decrypt(&b, &key).unwrap());
}

#[test]
fn decrypt_rejects_short_data() {
    let key = ProjectKey([0u8; 32]);
    assert_eq!(decrypt(&[1u8; 11], &key), Err(SecurityError::DataTooShort));
}

#[test]
fn decrypt_rejects_tampered_data() {
    let key = ProjectKey([3u8; 32]);
    let mut enc = encrypt(b"KEY=VALUE", &key).unwrap();
    let last = enc.len() - 1;
    enc[last] ^= 1;
    assert_eq!(decrypt(&enc, &key), Err(SecurityError::DecryptionFailed));
}

#[test]
fn decrypt_rejects_wrong_key() {
    let enc = encrypt(b"KEY=VALUE", &ProjectKey([3u8; 32])).unwrap();
    assert_eq!(decrypt(&enc, &ProjectKey([4u8; 32])), Err(SecurityError::DecryptionFailed));
}

#[test]
fn wrapped_key_shape() {
    let key = ProjectKey([9u8; 32]);
    let (wrapped, salt) = encrypt_project_key(&key, "pass").unwrap();
    assert_eq!(salt.len(), 16);
    assert_eq!(wrapped.len(), 60);
}

#[test]
fn unwrap_rejects_short_key() {
    assert_eq!(
        decrypt_project_key(&[0u8; 5], &[], "pass"),
        Err(SecurityError::EncryptedKeyTooShort)
    );
}

#[test]
fn unwrap_rejects_short_salt() {
    let err = decrypt_project_key(&[0u8; 60], &[1u8; 4], "pass").unwrap_err();
    assert!(matches!(err, SecurityError::Argon2Failure(_)));
    assert!(err.message().starts_with("Argon2 error: "));
}

#[test]
fn unwrap_rejects_long_salt() {
    let err = decrypt_project_key(&[0u8; 60], &[1u8; 49], "pass").unwrap_err();
    assert!(matches!(err, SecurityError::InvalidSalt(_)));
    assert!(err.message().starts_with("Invalid salt: "));
}

#[test]
fn unwrap_with_wrong_passphrase_fails() {
    let key = ProjectKey([5u8; 32]);
    let (wrapped, salt) = encrypt_project_key(&key, "right").unwrap();
    assert_eq!(
        decrypt_project_key(&wrapped, &salt, "wrong"),
        Err(SecurityError::KeyUnwrapFailed)
    );
}

#[test]
fn generated_values_have_their_sizes() {
    assert_eq!(generate_salt().len(), 16);
    let a = generate_project_key();
    let b = generate_project_key();
    assert_ne!(a, b);
}

#[test]
fn passphrase_seal_round_trip() {
    let blob = encrypt_with_passphrase(b"SECRET=123", "testpass").unwrap();
    assert_eq!(blob.len(), 76 + 12 + 10 + 16);
    assert_eq!(decrypt_with_passphrase(&blob, "testpass").unwrap(), b"SECRET=123".to_vec());
}

#[test]
fn passphrase_seal_wrong_passphrase() {
    let blob = encrypt_with_passphrase(b"SECRET=123", "testpass").unwrap();
    assert_eq!(
        decrypt_with_passphrase(&blob, "other"),
        Err(SecurityError::KeyUnwrapFailed)
    );
}

#[test]
fn passphrase_seal_too_short() {
    assert_eq!(
        decrypt_with_passphrase(&[0u8; 75], "testpass"),
        Err(SecurityError::EnvelopeTooShort)
    );
}

#[test]
fn error_messages() {
    assert_eq!(SecurityError::DataTooShort.message(), "Data too short");
    assert_eq!(
        SecurityError::EncryptionFailure("aead::Error".to_string()).message(),
        "Encryption failure: aead::Error"
    );
    assert_eq!(SecurityError::DecryptionFailed.message(), "Decryption failed");
    assert_eq!(
        SecurityError::KeyUnwrapFailed.message(),
        "Key unwrap failed (invalid passphrase)"
    );
}
