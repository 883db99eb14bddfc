use vstd::prelude::*;

use crate::asymmetric::{box_open, box_seal, gen_nonce, key_from_bytes, open_of, pk_of,
    public_of_secret};
use crate::encoding::{b64_encode, b64_of, hex_decode, hex_encode, hex_of};
use crate::errors::VaultError;
use crate::model::{EncryptedValue, PasswordHash};

verus! {

broadcast use vstd::utf8::is_ascii_chars_encode_utf8;

// ---------------------------------------------------------------------------
// Named result of the outside primitive
// ---------------------------------------------------------------------------

/// The 32-byte memory-hard hash of password and salt bytes.
pub uninterp spec fn password_hash_of(password: Seq<u8>, salt: Seq<u8>) -> Seq<u8>;

// ---------------------------------------------------------------------------
// Trusted wrappers
// ---------------------------------------------------------------------------

/// Relies on argon2's Argon2::hash_password_into with the default
/// memory-hard parameters (Argon2id, version 19, 32-byte output): the hash
/// is a pure function of the password and salt bytes; with a salt of at
/// least 8 bytes and a password of at most 2^32 - 1 bytes it fails only
/// when its working memory cannot be allocated.
#[verifier::external_body]
fn argon2_hash(password: &[u8], salt: &[u8]) -> (r: Option<[u8; 32]>)
    requires
        8 <= salt@.len() <= 0xFFFF_FFFF,
        password@.len() <= 0xFFFF_FFFF,
    ensures
        r is Some ==> r->0@ == password_hash_of(password@, salt@),
{
    let mut out = [0u8; 32];
    argon2::Argon2::default().hash_password_into(password, salt, &mut out).ok()?;
    Some(out)
}

/// Relies on crypto_box's SecretKey::generate with the operating system's
/// RNG as a source of 32 fresh random bytes; nothing is assumed about their
/// value.
#[verifier::external_body]
fn random_bytes() -> (r: Vec<u8>)
    ensures
        r@.len() == 32,
{
    crypto_box::SecretKey::generate(&mut crypto_box::aead::OsRng).to_bytes().to_vec()
}

// ---------------------------------------------------------------------------
// Password hashing
// ---------------------------------------------------------------------------

/// A salt the password hash accepts: ASCII text of a workable length.
pub open spec fn valid_salt(s: Seq<char>) -> bool {
    &&& vstd::utf8::is_ascii_chars(s)
    &&& 8 <= s.len() <= 64
}

/// The persisted text rendering of the hash of a password under a salt.
pub open spec fn hashed(password: Seq<char>, salt: Seq<char>) -> Seq<char> {
    hex_of(password_hash_of(vstd::utf8::encode_utf8(password), vstd::utf8::encode_utf8(salt)))
}

/// The deterministic keyed hash of a message, salted with the base64 name
/// of a public key: the credential-identifier derivation.
pub open spec fn keyed_hash_of(pk: Seq<u8>, message: Seq<char>) -> Seq<char> {
    hashed(message, b64_of(pk))
}

/// A fresh random salt, rendered as base64 text. Generated once at
/// registration and persisted beside the hash.
pub fn generate_salt() -> (r: String)
    ensures
        valid_salt(r@),
{
    let bytes = random_bytes();
    b64_encode(bytes.as_slice())
}

/// The memory-hard hash of a device password under a salt, for local
/// verification only; the salt is kept in the record's `nonce` field.
pub fn hash_password(password: &str, salt: &str) -> (r: Result<PasswordHash, VaultError>)
    ensures
        r matches Ok(h) ==> h.cipher@ == hashed(password@, salt@) && h.nonce@ == salt@
            && valid_salt(salt@) && password_hash_of(
            vstd::utf8::encode_utf8(password@),
            vstd::utf8::encode_utf8(salt@),
        ).len() == 32,
        r == Err::<PasswordHash, VaultError>(VaultError::CorruptOrWrongCredentials) <==> !valid_salt(
            salt@,
        ),
        r is Err ==> (r == Err::<PasswordHash, VaultError>(VaultError::CorruptOrWrongCredentials)
            || r == Err::<PasswordHash, VaultError>(VaultError::StorageUnavailable)),
{
    if !salt.is_ascii() {
        return Err(VaultError::CorruptOrWrongCredentials);
    }
    let salt_bytes = salt.as_bytes();
    if salt_bytes.len() < 8 || salt_bytes.len() > 64 {
        return Err(VaultError::CorruptOrWrongCredentials);
    }
    let password_bytes = password.as_bytes();
    if password_bytes.len() as u64 > 0xFFFF_FFFFu64 {
        return Err(VaultError::StorageUnavailable);
    }
    match argon2_hash(password_bytes, salt_bytes) {
        Some(h) => Ok(PasswordHash { cipher: hex_encode(h.as_slice()), nonce: salt.to_owned() }),
        None => Err(VaultError::StorageUnavailable),
    }
}

/// Recompute and compare: true exactly when the stored text is the hash of
/// the offered password under the stored salt.
pub fn verify_password(password: &str, cipher: &str, salt: &str) -> (r: Result<bool, VaultError>)
    ensures
        r matches Ok(b) ==> (b <==> cipher@ == hashed(password@, salt@)),
        r is Ok ==> password_hash_of(
            vstd::utf8::encode_utf8(password@),
            vstd::utf8::encode_utf8(salt@),
        ).len() == 32,
        r == Err::<bool, VaultError>(VaultError::CorruptOrWrongCredentials) <==> !valid_salt(salt@),
        r is Err ==> (r == Err::<bool, VaultError>(VaultError::CorruptOrWrongCredentials) || r
            == Err::<bool, VaultError>(VaultError::StorageUnavailable)),
{
    match hash_password(password, salt) {
        Ok(h) => Ok(h.cipher == cipher.to_owned()),
        Err(e) => Err(e),
    }
}

// ---------------------------------------------------------------------------
// Encryption at rest
// ---------------------------------------------------------------------------

/// An encrypted value holds plaintext bytes for a 32-byte key: its parts
/// decode from base64 and the key's self-addressed box opens them to the
/// bytes.
#[verifier::opaque]
pub open spec fn data_opens_to(key: Seq<u8>, v: EncryptedValue, data: Seq<u8>) -> bool {
    exists|nb: Seq<u8>, cb: Seq<u8>|
        {
            &&& #[trigger] b64_of(nb) == v.nonce@
            &&& #[trigger] b64_of(cb) == v.cipher@
            &&& nb.len() == 24
            &&& open_of(key, pk_of(key), nb, cb) == Some(data)
        }
}

/// Seal bytes at rest under a text-rendered 32-byte key, with a fresh
/// nonce. Used exclusively to wrap the private key before it touches disk.
pub fn encrypt_data(key_hex: &str, data: &[u8]) -> (r: Result<EncryptedValue, VaultError>)
    ensures
        forall|kb: Seq<u8>| key_hex@ == hex_of(kb) && kb.len() == 32 ==> r is Ok,
        r matches Ok(v) ==> forall|kb: Seq<u8>|
            key_hex@ == hex_of(kb) && kb.len() == 32 ==> data_opens_to(kb, v, data@),
        r is Err ==> r == Err::<EncryptedValue, VaultError>(VaultError::CorruptOrWrongCredentials),
{
    proof {
        reveal(crate::symmetric::data_opens_to);
    }
    let key_bytes = match hex_decode(key_hex) {
        Some(k) => k,
        None => {
            return Err(VaultError::CorruptOrWrongCredentials);
        },
    };
    if key_bytes.len() != 32 {
        return Err(VaultError::CorruptOrWrongCredentials);
    }
    let key = key_from_bytes(key_bytes.as_slice());
    let pk = public_of_secret(&key);
    let nonce = gen_nonce();
    let sealed = box_seal(&key, &pk, nonce.as_slice(), data);
    let v = EncryptedValue {
        cipher: b64_encode(sealed.as_slice()),
        nonce: b64_encode(nonce.as_slice()),
    };
    Ok(v)
}

/// Open bytes sealed at rest under a text-rendered 32-byte key. Tampering
/// is detected, never returned as garbage.
pub fn decrypt_data(key_hex: &str, enc: &EncryptedValue) -> (r: Result<Vec<u8>, VaultError>)
    ensures
        forall|kb: Seq<u8>, d: Seq<u8>|
            key_hex@ == hex_of(kb) && kb.len() == 32 && data_opens_to(kb, *enc, d) ==> (r matches Ok(o) && o@ == d),
        r matches Ok(o) ==> forall|kb: Seq<u8>|
            key_hex@ == hex_of(kb) && kb.len() == 32 ==> data_opens_to(kb, *enc, o@),
        r is Err ==> r == Err::<Vec<u8>, VaultError>(VaultError::CorruptOrWrongCredentials),
{
    proof {
        reveal(crate::symmetric::data_opens_to);
    }
    let key_bytes = match hex_decode(key_hex) {
        Some(k) => k,
        None => {
            return Err(VaultError::CorruptOrWrongCredentials);
        },
    };
    if key_bytes.len() != 32 {
        return Err(VaultError::CorruptOrWrongCredentials);
    }
    let key = key_from_bytes(key_bytes.as_slice());
    let pk = public_of_secret(&key);
    let nonce = match crate::encoding::b64_decode(enc.nonce.as_str()) {
        Some(n) => n,
        None => {
            return Err(VaultError::CorruptOrWrongCredentials);
        },
    };
    if nonce.len() != 24 {
        return Err(VaultError::CorruptOrWrongCredentials);
    }
    let cipher = match crate::encoding::b64_decode(enc.cipher.as_str()) {
        Some(c) => c,
        None => {
            return Err(VaultError::CorruptOrWrongCredentials);
        },
    };
    match box_open(&key, &pk, nonce.as_slice(), cipher.as_slice()) {
        Some(opened) => Ok(opened),
        None => Err(VaultError::CorruptOrWrongCredentials),
    }
}

} // verus!
