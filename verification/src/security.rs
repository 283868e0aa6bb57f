//! AES-256-GCM encryption of environment data, with project keys wrapped
//! under a passphrase-derived (Argon2) master key.

use aes_gcm::aead::{Aead, AeadCore, KeyInit, OsRng};
use aes_gcm::{Aes256Gcm, Key, Nonce};
use argon2::password_hash::rand_core::RngCore;
use argon2::password_hash::{PasswordHasher, SaltString};
use argon2::Argon2;
use vstd::prelude::*;
use vstd::string::StringSliceAdditionalSpecFns;
use zeroize::Zeroize;

verus! {

/// Length in bytes of an AES-GCM nonce, stored in front of each ciphertext.
pub const NONCE_LEN: usize = 12;

/// Length in bytes of the authentication tag that AES-GCM appends.
pub const TAG_LEN: usize = 16;

/// Length in bytes of a project key and of a derived master key.
pub const KEY_LEN: usize = 32;

/// Length in bytes of a freshly generated Argon2 salt.
pub const SALT_LEN: usize = 16;

/// The longest plaintext that AES-GCM accepts (2^36 bytes).
pub const MAX_PLAINTEXT_LEN: u64 = 0x10_0000_0000;

/// A 32-byte symmetric key that encrypts the data of a project.
#[derive(Clone, Debug, PartialEq, Eq)]
pub struct ProjectKey(pub [u8; 32]);

impl Drop for ProjectKey {
    /// The key bytes are wiped when the key goes away.
    fn drop(&mut self)
        opens_invariants none
        no_unwind
    {
        wipe_key(&mut self.0);
    }
}

/// The ways in which key derivation, key wrapping and data encryption fail.
/// Where an outside library refused, its own description of the refusal is kept.
#[derive(Debug, PartialEq, Eq)]
pub enum SecurityError {
    /// The salt cannot be encoded as a PHC salt string.
    InvalidSalt(String),
    /// Argon2 refused the passphrase or the salt.
    Argon2Failure(String),
    /// Argon2 produced no hash output.
    MissingHashOutput,
    /// Argon2 produced an output that is not 32 bytes long.
    DerivedKeyLength,
    /// AES-GCM refused to wrap the project key.
    KeyWrapFailure(String),
    /// The wrapped key is shorter than a nonce.
    EncryptedKeyTooShort,
    /// AES-GCM refused to unwrap the project key (wrong passphrase or corrupted data).
    KeyUnwrapFailed,
    /// The unwrapped key is not 32 bytes long.
    InvalidDecryptedKeyLength,
    /// AES-GCM refused to encrypt the data.
    EncryptionFailure(String),
    /// The encrypted data is shorter than a nonce.
    DataTooShort,
    /// AES-GCM refused to decrypt the data (wrong key or corrupted data).
    DecryptionFailed,
    /// A passphrase-sealed blob is shorter than its salt and wrapped key.
    EnvelopeTooShort,
}

/// The kind of a `SecurityError`, without the outside library's description.
#[derive(Clone, Copy, Debug, PartialEq, Eq, Structural)]
pub enum SecurityErrorKind {
    InvalidSalt,
    Argon2Failure,
    MissingHashOutput,
    DerivedKeyLength,
    KeyWrapFailure,
    EncryptedKeyTooShort,
    KeyUnwrapFailed,
    InvalidDecryptedKeyLength,
    EncryptionFailure,
    DataTooShort,
    DecryptionFailed,
    EnvelopeTooShort,
}

impl Clone for SecurityError {
    fn clone(&self) -> (r: Self)
        ensures
            r == *self,
    {
        match self {
            SecurityError::InvalidSalt(d) => SecurityError::InvalidSalt(d.clone()),
            SecurityError::Argon2Failure(d) => SecurityError::Argon2Failure(d.clone()),
            SecurityError::MissingHashOutput => SecurityError::MissingHashOutput,
            SecurityError::DerivedKeyLength => SecurityError::DerivedKeyLength,
            SecurityError::KeyWrapFailure(d) => SecurityError::KeyWrapFailure(d.clone()),
            SecurityError::EncryptedKeyTooShort => SecurityError::EncryptedKeyTooShort,
            SecurityError::KeyUnwrapFailed => SecurityError::KeyUnwrapFailed,
            SecurityError::InvalidDecryptedKeyLength => SecurityError::InvalidDecryptedKeyLength,
            SecurityError::EncryptionFailure(d) => SecurityError::EncryptionFailure(d.clone()),
            SecurityError::DataTooShort => SecurityError::DataTooShort,
            SecurityError::DecryptionFailed => SecurityError::DecryptionFailed,
            SecurityError::EnvelopeTooShort => SecurityError::EnvelopeTooShort,
        }
    }
}

impl SecurityError {
    /// The kind of the error.
    pub open spec fn kind(&self) -> SecurityErrorKind {
        match *self {
            SecurityError::InvalidSalt(_) => SecurityErrorKind::InvalidSalt,
            SecurityError::Argon2Failure(_) => SecurityErrorKind::Argon2Failure,
            SecurityError::MissingHashOutput => SecurityErrorKind::MissingHashOutput,
            SecurityError::DerivedKeyLength => SecurityErrorKind::DerivedKeyLength,
            SecurityError::KeyWrapFailure(_) => SecurityErrorKind::KeyWrapFailure,
            SecurityError::EncryptedKeyTooShort => SecurityErrorKind::EncryptedKeyTooShort,
            SecurityError::KeyUnwrapFailed => SecurityErrorKind::KeyUnwrapFailed,
            SecurityError::InvalidDecryptedKeyLength => SecurityErrorKind::InvalidDecryptedKeyLength,
            SecurityError::EncryptionFailure(_) => SecurityErrorKind::EncryptionFailure,
            SecurityError::DataTooShort => SecurityErrorKind::DataTooShort,
            SecurityError::DecryptionFailed => SecurityErrorKind::DecryptionFailed,
            SecurityError::EnvelopeTooShort => SecurityErrorKind::EnvelopeTooShort,
        }
    }

    /// A human-readable description of the error.
    pub fn message(&self) -> (s: String)
        ensures
            s@ == self.spec_message(),
    {
        let (text, detail) = match self {
            SecurityError::InvalidSalt(d) => ("Invalid salt: ", Some(d)),
            SecurityError::Argon2Failure(d) => ("Argon2 error: ", Some(d)),
            SecurityError::MissingHashOutput => ("No hash output", None),
            SecurityError::DerivedKeyLength => ("Derived key length mismatch", None),
            SecurityError::KeyWrapFailure(d) => ("Key wrap failure: ", Some(d)),
            SecurityError::EncryptedKeyTooShort => ("Encrypted key too short", None),
            SecurityError::KeyUnwrapFailed => ("Key unwrap failed (invalid passphrase)", None),
            SecurityError::InvalidDecryptedKeyLength => ("Invalid decrypted key length", None),
            SecurityError::EncryptionFailure(d) => ("Encryption failure: ", Some(d)),
            SecurityError::DataTooShort => ("Data too short", None),
            SecurityError::DecryptionFailed => ("Decryption failed", None),
            SecurityError::EnvelopeTooShort => ("Encrypted environment too short", None),
        };
        let mut message = text.to_owned();
        match detail {
            Some(d) => message.append(d.as_str()),
            None => {},
        }
        message
    }

    pub open spec fn spec_message(&self) -> Seq<char> {
        match *self {
            SecurityError::InvalidSalt(d) => "Invalid salt: "@ + d@,
            SecurityError::Argon2Failure(d) => "Argon2 error: "@ + d@,
            SecurityError::MissingHashOutput => "No hash output"@,
            SecurityError::DerivedKeyLength => "Derived key length mismatch"@,
            SecurityError::KeyWrapFailure(d) => "Key wrap failure: "@ + d@,
            SecurityError::EncryptedKeyTooShort => "Encrypted key too short"@,
            SecurityError::KeyUnwrapFailed => "Key unwrap failed (invalid passphrase)"@,
            SecurityError::InvalidDecryptedKeyLength => "Invalid decrypted key length"@,
            SecurityError::EncryptionFailure(d) => "Encryption failure: "@ + d@,
            SecurityError::DataTooShort => "Data too short"@,
            SecurityError::DecryptionFailed => "Decryption failed"@,
            SecurityError::EnvelopeTooShort => "Encrypted environment too short"@,
        }
    }
}

/// The AES-256-GCM ciphertext (with its appended tag) of `plaintext` under
/// `key` and `nonce`, as `aes_gcm` computes it.
pub uninterp spec fn aes256gcm_seal(key: Seq<u8>, nonce: Seq<u8>, plaintext: Seq<u8>) -> Seq<u8>;

/// What AES-256-GCM decryption of `ciphertext` under `key` and `nonce`
/// gives: the plaintext, or `None` when authentication fails.
pub uninterp spec fn aes256gcm_open(key: Seq<u8>, nonce: Seq<u8>, ciphertext: Seq<u8>) -> Option<Seq<u8>>;

/// The 32-byte Argon2id output (default parameters) for `password` and `salt`.
pub uninterp spec fn argon2id_output(password: Seq<u8>, salt: Seq<u8>) -> Seq<u8>;

/// Wraps `Aes256Gcm::new` followed by `Aead::encrypt` (aes-gcm 0.10).
/// Trusted: encryption succeeds exactly when the plaintext is at most 2^36
/// bytes; the ciphertext is the named seal, 16 bytes longer than the plaintext,
/// and decrypting it with the same key and nonce gives the plaintext back.
/// On failure the error's own description is returned; its text is left unsaid.
#[verifier::external_body]
fn aes256gcm_encrypt(key: &[u8; 32], nonce: &[u8; 12], plaintext: &[u8]) -> (r: Result<Vec<u8>, String>)
    ensures
        r is Ok <==> plaintext@.len() <= MAX_PLAINTEXT_LEN,
        r matches Ok(c) ==> c@ == aes256gcm_seal(key@, nonce@, plaintext@),
        r matches Ok(c) ==> c@.len() == plaintext@.len() + TAG_LEN,
        r matches Ok(c) ==> aes256gcm_open(key@, nonce@, c@) == Some(plaintext@),
{
    let cipher = Aes256Gcm::new(Key::<Aes256Gcm>::from_slice(key));
    cipher.encrypt(Nonce::from_slice(nonce), plaintext).map_err(|e| e.to_string())
}

/// Wraps `Aes256Gcm::new` followed by `Aead::decrypt` (aes-gcm 0.10).
/// Trusted: the result is the named open of the arguments; a recovered
/// plaintext is 16 bytes shorter than the ciphertext.
#[verifier::external_body]
fn aes256gcm_decrypt(key: &[u8; 32], nonce: &[u8], ciphertext: &[u8]) -> (r: Option<Vec<u8>>)
    requires
        nonce@.len() == NONCE_LEN,
    ensures
        r matches Some(p) ==> Some(p@) == aes256gcm_open(key@, nonce@, ciphertext@),
        r is None ==> aes256gcm_open(key@, nonce@, ciphertext@) is None,
        r matches Some(p) ==> p@.len() + TAG_LEN == ciphertext@.len(),
{
    let cipher = Aes256Gcm::new(Key::<Aes256Gcm>::from_slice(key));
    cipher.decrypt(Nonce::from_slice(nonce), ciphertext).ok()
}

/// `r` is a failed password hash of kind `kind`.
pub open spec fn hash_failed(r: Result<Option<Vec<u8>>, SecurityError>, kind: SecurityErrorKind) -> bool {
    r matches Err(e) && e.kind() == kind
}

/// Wraps `SaltString::encode_b64` and `PasswordHasher::hash_password` of
/// `Argon2::default()` (argon2 0.5); the salt string is only the form in which
/// `hash_password` takes the salt, and it decodes back to `salt`.
/// Trusted: salts over 48 bytes do not encode; Argon2 refuses salts under 8
/// bytes and passwords over `u32::MAX` bytes; otherwise the output is present,
/// 32 bytes long and equal to the named Argon2id output.  Salts under 3 bytes
/// make `hash_password` panic, so `requires` leaves them out.  A failure keeps
/// the outside error's own description, whose text is left unsaid.
#[verifier::external_body]
fn argon2_hash(password: &[u8], salt: &[u8]) -> (r: Result<Option<Vec<u8>>, SecurityError>)
    requires
        salt@.len() >= 3,
    ensures
        salt@.len() > 48 ==> hash_failed(r, SecurityErrorKind::InvalidSalt),
        salt@.len() <= 48 && (salt@.len() < 8 || password@.len() > u32::MAX) ==> hash_failed(r, SecurityErrorKind::Argon2Failure),
        8 <= salt@.len() <= 48 && password@.len() <= u32::MAX ==> r matches Ok(Some(_)),
        r matches Ok(Some(h)) ==> h@ == argon2id_output(password@, salt@),
        r matches Ok(Some(h)) ==> h@.len() == KEY_LEN,
{
    let salt_string = match SaltString::encode_b64(salt) {
        Ok(s) => s,
        Err(e) => return Err(SecurityError::InvalidSalt(e.to_string())),
    };
    match Argon2::default().hash_password(password, &salt_string) {
        Ok(hash) => Ok(match hash.hash {
            Some(out) => Some(out.as_bytes().to_vec()),
            None => None,
        }),
        Err(e) => Err(SecurityError::Argon2Failure(e.to_string())),
    }
}

/// Wraps `RngCore::fill_bytes` of `OsRng`: `N` random bytes, of which
/// nothing is stated.
#[verifier::external_body]
fn random_bytes<const N: usize>() -> [u8; N] {
    let mut bytes = [0u8; N];
    OsRng.fill_bytes(&mut bytes);
    bytes
}

/// Wraps `AeadCore::generate_nonce` of `Aes256Gcm` with `OsRng`: a random
/// 12-byte nonce, of which nothing is stated.
#[verifier::external_body]
fn random_nonce() -> [u8; 12] {
    Aes256Gcm::generate_nonce(&mut OsRng).into()
}

/// Wraps `Zeroize::zeroize` on a 32-byte array.
/// Trusted: every byte is zero afterwards.
#[verifier::external_body]
fn wipe_key(key: &mut [u8; 32])
    ensures
        final(key)@ == Seq::new(32, |i: int| 0u8),
    opens_invariants none
    no_unwind
{
    key.zeroize();
}

/// The master key that Argon2 derives from a passphrase (as UTF-8 bytes) and a salt.
pub open spec fn master_key_spec(passphrase: Seq<u8>, salt: Seq<u8>) -> Result<Seq<u8>, SecurityErrorKind> {
    if salt.len() > 48 {
        Err(SecurityErrorKind::InvalidSalt)
    } else if salt.len() < 8 || passphrase.len() > u32::MAX {
        Err(SecurityErrorKind::Argon2Failure)
    } else {
        Ok(argon2id_output(passphrase, salt))
    }
}

/// Copies 32 bytes out of a vector into an array.
fn key_from_bytes(bytes: &Vec<u8>) -> (key: [u8; 32])
    requires
        bytes@.len() == KEY_LEN,
    ensures
        key@ == bytes@,
{
    let mut key = [0u8; 32];
    let mut i: usize = 0;
    while i < KEY_LEN
        invariant
            i <= KEY_LEN,
            bytes@.len() == KEY_LEN,
            forall|j: int| 0 <= j < i ==> key@[j] == bytes@[j],
        decreases KEY_LEN - i,
    {
        key[i] = bytes[i];
        i = i + 1;
    }
    assert(key@ =~= bytes@);
    key
}

/// Derives a 32-byte master key from a passphrase and salt using Argon2.
fn derive_master_key(passphrase: &str, salt: &[u8]) -> (r: Result<[u8; 32], SecurityError>)
    requires
        salt@.len() >= 3,
    ensures
        match master_key_spec(passphrase.spec_bytes(), salt@) {
            Ok(k) => r matches Ok(m) && m@ == k,
            Err(k) => r matches Err(e) && e.kind() == k,
        },
{
    let password_hash = argon2_hash(passphrase.as_bytes(), salt)?;
    let hash = match password_hash {
        Some(h) => h,
        None => return Err(SecurityError::MissingHashOutput),
    };
    if hash.len() != KEY_LEN {
        return Err(SecurityError::DerivedKeyLength);
    }
    Ok(key_from_bytes(&hash))
}

/// Generates a random 32-byte project key.
pub fn generate_project_key() -> ProjectKey {
    ProjectKey(random_bytes::<32>())
}

/// Generate a random 16-byte salt for Argon2
pub fn generate_salt() -> [u8; 16] {
    random_bytes::<16>()
}

/// `nonce` followed by `body`, as a new vector.
fn frame(nonce: &[u8; 12], body: &Vec<u8>) -> (r: Vec<u8>)
    ensures
        r@ == nonce@ + body@,
{
    let mut result: Vec<u8> = Vec::new();
    result.extend_from_slice(nonce.as_slice());
    result.extend_from_slice(body.as_slice());
    result
}

/// What decrypting an encrypted blob `[NONCE (12) | CIPHERTEXT + TAG]` with `key` gives.
pub open spec fn decrypt_spec(data: Seq<u8>, key: Seq<u8>) -> Result<Seq<u8>, SecurityErrorKind> {
    if data.len() < NONCE_LEN {
        Err(SecurityErrorKind::DataTooShort)
    } else {
        match aes256gcm_open(key, data.subrange(0, NONCE_LEN as int), data.subrange(NONCE_LEN as int, data.len() as int)) {
            Some(p) => Ok(p),
            None => Err(SecurityErrorKind::DecryptionFailed),
        }
    }
}

/// `blob` is some nonce followed by the AES-256-GCM seal of `plaintext` under `key` and that nonce.
pub open spec fn is_sealed_under(blob: Seq<u8>, key: Seq<u8>, plaintext: Seq<u8>) -> bool {
    exists|nonce: Seq<u8>| #![trigger aes256gcm_seal(key, nonce, plaintext)]
        nonce.len() == NONCE_LEN && blob == nonce + aes256gcm_seal(key, nonce, plaintext)
}

/// Encrypts data using the Project Key (Fast Layer).
/// No Argon2 here, just straight AES-GCM.
/// Returns [NONCE (12) | CIPHERTEXT + TAG]
pub fn encrypt(data: &[u8], key: &ProjectKey) -> (r: Result<Vec<u8>, SecurityError>)
    ensures
        r is Ok <==> data@.len() <= MAX_PLAINTEXT_LEN,
        r matches Err(e) ==> e.kind() == SecurityErrorKind::EncryptionFailure,
        r matches Ok(blob) ==> blob@.len() == NONCE_LEN + data@.len() + TAG_LEN,
        r matches Ok(blob) ==> is_sealed_under(blob@, key.0@, data@),
        r matches Ok(blob) ==> decrypt_spec(blob@, key.0@) == Ok::<Seq<u8>, SecurityErrorKind>(data@),
{
    let nonce = random_nonce();
    let ciphertext = match aes256gcm_encrypt(&key.0, &nonce, data) {
        Ok(c) => c,
        Err(detail) => return Err(SecurityError::EncryptionFailure(detail)),
    };
    let result = frame(&nonce, &ciphertext);
    proof {
        assert(result@.subrange(0, NONCE_LEN as int) =~= nonce@);
        assert(result@.subrange(NONCE_LEN as int, result@.len() as int) =~= ciphertext@);
    }
    Ok(result)
}

/// Decrypts data using the Project Key (Fast Layer).
pub fn decrypt(data: &[u8], key: &ProjectKey) -> (r: Result<Vec<u8>, SecurityError>)
    ensures
        match decrypt_spec(data@, key.0@) {
            Ok(p) => r matches Ok(v) && v@ == p,
            Err(k) => r matches Err(e) && e.kind() == k,
        },
{
    if data.len() < NONCE_LEN {
        return Err(SecurityError::DataTooShort);
    }
    let nonce_bytes = &data[0..NONCE_LEN];
    let ciphertext = &data[NONCE_LEN..data.len()];
    match aes256gcm_decrypt(&key.0, nonce_bytes, ciphertext) {
        Some(p) => Ok(p),
        None => Err(SecurityError::DecryptionFailed),
    }
}

/// What unwrapping the wrapped key `encrypted_key` with `passphrase` (as UTF-8
/// bytes) and `salt` gives: the 32-byte project key, or the error.
pub open spec fn unwrap_key_spec(encrypted_key: Seq<u8>, salt: Seq<u8>, passphrase: Seq<u8>) -> Result<Seq<u8>, SecurityErrorKind> {
    if encrypted_key.len() < NONCE_LEN {
        Err(SecurityErrorKind::EncryptedKeyTooShort)
    } else {
        match master_key_spec(passphrase, salt) {
            Err(e) => Err(e),
            Ok(master) => match aes256gcm_open(
                master,
                encrypted_key.subrange(0, NONCE_LEN as int),
                encrypted_key.subrange(NONCE_LEN as int, encrypted_key.len() as int),
            ) {
                None => Err(SecurityErrorKind::KeyUnwrapFailed),
                Some(p) => if p.len() != KEY_LEN {
                    Err(SecurityErrorKind::InvalidDecryptedKeyLength)
                } else {
                    Ok(p)
                },
            },
        }
    }
}

/// Encrypts the Project Key using the Passphrase (Envelope Layer).
/// Returns (EncryptedKey, Salt).
pub fn encrypt_project_key(project_key: &ProjectKey, passphrase: &str) -> (r: Result<(Vec<u8>, Vec<u8>), SecurityError>)
    ensures
        r is Ok <==> passphrase.spec_bytes().len() <= u32::MAX,
        r matches Err(e) ==> e.kind() == SecurityErrorKind::Argon2Failure,
        r matches Ok((wrapped, salt)) ==> salt@.len() == SALT_LEN && wrapped@.len() == NONCE_LEN + KEY_LEN + TAG_LEN,
        r matches Ok((wrapped, salt)) ==> is_sealed_under(wrapped@, argon2id_output(passphrase.spec_bytes(), salt@), project_key.0@),
        r matches Ok((wrapped, salt)) ==> unwrap_key_spec(wrapped@, salt@, passphrase.spec_bytes()) == Ok::<Seq<u8>, SecurityErrorKind>(project_key.0@),
{
    let salt = generate_salt();
    let mut master_key = derive_master_key(passphrase, salt.as_slice())?;
    let nonce = random_nonce();
    let ciphertext = match aes256gcm_encrypt(&master_key, &nonce, project_key.0.as_slice()) {
        Ok(c) => c,
        Err(detail) => return Err(SecurityError::KeyWrapFailure(detail)),
    };
    // Format: NONCE (12) | CIPHERTEXT
    let result = frame(&nonce, &ciphertext);
    wipe_key(&mut master_key);
    let mut salt_vec: Vec<u8> = Vec::new();
    salt_vec.extend_from_slice(salt.as_slice());
    proof {
        assert(result@.subrange(0, NONCE_LEN as int) =~= nonce@);
        assert(result@.subrange(NONCE_LEN as int, result@.len() as int) =~= ciphertext@);
        assert(salt_vec@ =~= salt@);
    }
    Ok((result, salt_vec))
}

/// Decrypts the Project Key using the Passphrase.
pub fn decrypt_project_key(encrypted_key: &[u8], salt: &[u8], passphrase: &str) -> (r: Result<ProjectKey, SecurityError>)
    requires
        encrypted_key@.len() >= NONCE_LEN ==> salt@.len() >= 3,
    ensures
        match unwrap_key_spec(encrypted_key@, salt@, passphrase.spec_bytes()) {
            Ok(k) => r matches Ok(key) && key.0@ == k,
            Err(k) => r matches Err(e) && e.kind() == k,
        },
{
    if encrypted_key.len() < NONCE_LEN {
        return Err(SecurityError::EncryptedKeyTooShort);
    }
    let mut master_key = derive_master_key(passphrase, salt)?;
    let nonce_bytes = &encrypted_key[0..NONCE_LEN];
    let ciphertext = &encrypted_key[NONCE_LEN..encrypted_key.len()];
    let plaintext = match aes256gcm_decrypt(&master_key, nonce_bytes, ciphertext) {
        Some(p) => p,
        None => return Err(SecurityError::KeyUnwrapFailed),
    };
    wipe_key(&mut master_key);
    if plaintext.len() != KEY_LEN {
        return Err(SecurityError::InvalidDecryptedKeyLength);
    }
    Ok(ProjectKey(key_from_bytes(&plaintext)))
}

/// Length in bytes of the header of a passphrase-sealed blob: the salt
/// followed by the wrapped project key.
pub const ENVELOPE_HEADER_LEN: usize = 76;

/// What opening a passphrase-sealed blob
/// `[SALT (16) | WRAPPED KEY (60) | NONCE (12) | CIPHERTEXT + TAG]`
/// with `passphrase` (as UTF-8 bytes) gives.
pub open spec fn open_sealed_spec(blob: Seq<u8>, passphrase: Seq<u8>) -> Result<Seq<u8>, SecurityErrorKind> {
    if blob.len() < ENVELOPE_HEADER_LEN {
        Err(SecurityErrorKind::EnvelopeTooShort)
    } else {
        match unwrap_key_spec(
            blob.subrange(SALT_LEN as int, ENVELOPE_HEADER_LEN as int),
            blob.subrange(0, SALT_LEN as int),
            passphrase,
        ) {
            Err(e) => Err(e),
            Ok(key) => decrypt_spec(blob.subrange(ENVELOPE_HEADER_LEN as int, blob.len() as int), key),
        }
    }
}

/// Seals data under a passphrase: a fresh project key encrypts the data and is
/// itself wrapped under the passphrase.
/// Returns [SALT (16) | WRAPPED KEY (60) | NONCE (12) | CIPHERTEXT + TAG]
pub fn encrypt_with_passphrase(data: &[u8], passphrase: &str) -> (r: Result<Vec<u8>, SecurityError>)
    ensures
        r is Ok <==> (passphrase.spec_bytes().len() <= u32::MAX && data@.len() <= MAX_PLAINTEXT_LEN),
        passphrase.spec_bytes().len() > u32::MAX ==> (r matches Err(e) && e.kind() == SecurityErrorKind::Argon2Failure),
        passphrase.spec_bytes().len() <= u32::MAX && data@.len() > MAX_PLAINTEXT_LEN ==> (r matches Err(e) && e.kind()
            == SecurityErrorKind::EncryptionFailure),
        r matches Ok(blob) ==> blob@.len() == ENVELOPE_HEADER_LEN + NONCE_LEN + data@.len() + TAG_LEN,
        r matches Ok(blob) ==> open_sealed_spec(blob@, passphrase.spec_bytes()) == Ok::<Seq<u8>, SecurityErrorKind>(data@),
{
    let key = generate_project_key();
    let (wrapped, salt) = encrypt_project_key(&key, passphrase)?;
    let body = encrypt(data, &key)?;
    let mut result: Vec<u8> = Vec::new();
    result.extend_from_slice(salt.as_slice());
    result.extend_from_slice(wrapped.as_slice());
    result.extend_from_slice(body.as_slice());
    proof {
        assert(result@.subrange(0, SALT_LEN as int) =~= salt@);
        assert(result@.subrange(SALT_LEN as int, ENVELOPE_HEADER_LEN as int) =~= wrapped@);
        assert(result@.subrange(ENVELOPE_HEADER_LEN as int, result@.len() as int) =~= body@);
    }
    Ok(result)
}

/// Opens a blob sealed by `encrypt_with_passphrase`.
pub fn decrypt_with_passphrase(blob: &[u8], passphrase: &str) -> (r: Result<Vec<u8>, SecurityError>)
    ensures
        match open_sealed_spec(blob@, passphrase.spec_bytes()) {
            Ok(p) => r matches Ok(v) && v@ == p,
            Err(k) => r matches Err(e) && e.kind() == k,
        },
{
    if blob.len() < ENVELOPE_HEADER_LEN {
        return Err(SecurityError::EnvelopeTooShort);
    }
    let salt = &blob[0..SALT_LEN];
    let wrapped = &blob[SALT_LEN..ENVELOPE_HEADER_LEN];
    let body = &blob[ENVELOPE_HEADER_LEN..blob.len()];
    let key = decrypt_project_key(wrapped, salt, passphrase)?;
    decrypt(body, &key)
}

/// Key derivation depends on the passphrase and the salt alone: deriving
/// twice from the same passphrase and salt gives the same master key.
pub proof fn law_master_key_deterministic(passphrase: Seq<u8>, salt: Seq<u8>, first: Seq<u8>, second: Seq<u8>)
    requires
        master_key_spec(passphrase, salt) == Ok::<Seq<u8>, SecurityErrorKind>(first),
        master_key_spec(passphrase, salt) == Ok::<Seq<u8>, SecurityErrorKind>(second),
    ensures
        first == second,
{
}

/// Data too short to hold a nonce never decrypts, a wrapped key too short to
/// hold a nonce never unwraps, a sealed blob too short to hold its salt and
/// wrapped key never opens, and an unwrapped project key is always 32 bytes.
pub proof fn law_short_inputs_rejected(data: Seq<u8>, key: Seq<u8>, salt: Seq<u8>, passphrase: Seq<u8>)
    ensures
        data.len() < NONCE_LEN ==> decrypt_spec(data, key) is Err,
        data.len() < NONCE_LEN ==> unwrap_key_spec(data, salt, passphrase) is Err,
        data.len() < ENVELOPE_HEADER_LEN ==> open_sealed_spec(data, passphrase) is Err,
        unwrap_key_spec(data, salt, passphrase) matches Ok(k) ==> k.len() == KEY_LEN,
{
}

/// Whatever nonce is used, decrypting a nonce followed by the AES-256-GCM seal
/// of some data under a key gives that data back with the same key.
pub proof fn law_sealed_data_decrypts(nonce: Seq<u8>, key: Seq<u8>, plaintext: Seq<u8>)
    requires
        nonce.len() == NONCE_LEN,
        aes256gcm_open(key, nonce, aes256gcm_seal(key, nonce, plaintext)) == Some(plaintext),
    ensures
        decrypt_spec(nonce + aes256gcm_seal(key, nonce, plaintext), key) == Ok::<Seq<u8>, SecurityErrorKind>(plaintext),
{
    let blob = nonce + aes256gcm_seal(key, nonce, plaintext);
    assert(blob.subrange(0, NONCE_LEN as int) =~= nonce);
    assert(blob.subrange(NONCE_LEN as int, blob.len() as int) =~= aes256gcm_seal(key, nonce, plaintext));
}

} // verus!
