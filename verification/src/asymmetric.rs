use crypto_box::aead::{Aead, AeadCore};
use vstd::prelude::*;

use crate::encoding::{b64_decode, b64_encode, b64_of};
use crate::errors::VaultError;
use crate::model::EncryptedValue;
use crate::symmetric::{hash_password, keyed_hash_of};

verus! {

broadcast use vstd::utf8::encode_utf8_valid_utf8, vstd::utf8::encode_utf8_decode_utf8,
    vstd::utf8::decode_utf8_encode_utf8;

// ---------------------------------------------------------------------------
// Named results of the outside primitives
// ---------------------------------------------------------------------------

/// Whether a mnemonic sentence passes word-list and checksum validation and
/// the whole key derivation pipeline succeeds on it.
pub uninterp spec fn phrase_valid(phrase: Seq<char>) -> bool;

/// The 32 root private-key bytes derived from a valid mnemonic sentence.
pub uninterp spec fn master_sk_of(phrase: Seq<char>) -> Seq<u8>;

/// The X25519 public key matching 32 secret-key bytes.
pub uninterp spec fn pk_of(sk: Seq<u8>) -> Seq<u8>;

/// The ciphertext sealed with the box of `(sk, pk)` under a nonce.
pub uninterp spec fn seal_of(sk: Seq<u8>, pk: Seq<u8>, nonce: Seq<u8>, msg: Seq<u8>) -> Seq<u8>;

/// What opening a ciphertext with the box of `(sk, pk)` under a nonce
/// yields: the sealed message, or nothing when authentication fails.
pub uninterp spec fn open_of(sk: Seq<u8>, pk: Seq<u8>, nonce: Seq<u8>, cipher: Seq<u8>) -> Option<
    Seq<u8>,
>;

// ---------------------------------------------------------------------------
// Trusted wrappers over bip32 and crypto_box
// ---------------------------------------------------------------------------

/// Relies on bip32's Mnemonic::random with the operating system's RNG: a
/// freshly generated English sentence always parses back against the word
/// list, so the rest of the pipeline accepts it.
#[verifier::external_body]
fn random_phrase() -> (r: String)
    ensures
        phrase_valid(r@),
{
    let mnemonic = bip32::Mnemonic::random(crypto_box::aead::OsRng, bip32::Language::English);
    mnemonic.phrase().to_owned()
}

/// Relies on bip32: Mnemonic::new validates the sentence against the English
/// word list and checksum, to_seed stretches it (BIP-39, empty passphrase),
/// and XPrv::new derives the root private key. The pipeline is a pure
/// function of the sentence and fails exactly on the sentences it rejects.
#[verifier::external_body]
fn derive_master_sk(phrase: &str) -> (r: Option<[u8; 32]>)
    ensures
        r is Some <==> phrase_valid(phrase@),
        r is Some ==> r->0@ == master_sk_of(phrase@),
{
    let mnemonic = bip32::Mnemonic::new(phrase, bip32::Language::English).ok()?;
    let seed = mnemonic.to_seed("");
    let root = bip32::XPrv::new(&seed).ok()?;
    Some(root.to_bytes())
}

/// Relies on crypto_box's SecretKey::public_key: the public key is a pure
/// function of the 32 secret-key bytes.
#[verifier::external_body]
pub(crate) fn public_of_secret(sk: &[u8; 32]) -> (r: [u8; 32])
    ensures
        r@ == pk_of(sk@),
{
    crypto_box::SecretKey::from(*sk).public_key().to_bytes()
}

/// Relies on crypto_box's ChaChaBox (XChaCha20-Poly1305 keyed by an X25519
/// shared secret): sealing is a pure function of the two keys, the nonce and
/// the message; with empty associated data it cannot fail; what was sealed
/// opens back to the message; and because the shared secret of `(sk, pk)`
/// equals that of the mirrored pair, the mirrored box opens it too.
#[verifier::external_body]
pub(crate) fn box_seal(sk: &[u8; 32], pk: &[u8; 32], nonce: &[u8], msg: &[u8]) -> (r: Vec<u8>)
    requires
        nonce@.len() == 24,
    ensures
        r@ == seal_of(sk@, pk@, nonce@, msg@),
        open_of(sk@, pk@, nonce@, r@) == Some(msg@),
        forall|sk2: Seq<u8>|
            pk@ == pk_of(sk2) ==> open_of(sk2, pk_of(sk@), nonce@, r@) == Some(msg@),
{
    let sealing_box = crypto_box::ChaChaBox::new(
        &crypto_box::PublicKey::from(*pk),
        &crypto_box::SecretKey::from(*sk),
    );
    let payload = crypto_box::aead::Payload { msg, aad: b"" };
    sealing_box
        .encrypt(crypto_box::Nonce::from_slice(nonce), payload)
        .expect("sealing with empty associated data cannot fail")
}

/// Relies on crypto_box's ChaChaBox: opening succeeds exactly when the
/// ciphertext authenticates under the shared key and nonce, and then yields
/// the sealed message.
#[verifier::external_body]
pub(crate) fn box_open(sk: &[u8; 32], pk: &[u8; 32], nonce: &[u8], cipher: &[u8]) -> (r: Option<
    Vec<u8>,
>)
    requires
        nonce@.len() == 24,
    ensures
        r is Some <==> open_of(sk@, pk@, nonce@, cipher@) is Some,
        r is Some ==> Some(r->0@) == open_of(sk@, pk@, nonce@, cipher@),
{
    let opening_box = crypto_box::ChaChaBox::new(
        &crypto_box::PublicKey::from(*pk),
        &crypto_box::SecretKey::from(*sk),
    );
    let payload = crypto_box::aead::Payload { msg: cipher, aad: b"" };
    opening_box.decrypt(crypto_box::Nonce::from_slice(nonce), payload).ok()
}

/// Relies on ChaChaBox::generate_nonce with the operating system's RNG: a
/// fresh 24-byte nonce; nothing is assumed about its value.
#[verifier::external_body]
pub(crate) fn gen_nonce() -> (r: Vec<u8>)
    ensures
        r@.len() == 24,
{
    crypto_box::ChaChaBox::generate_nonce(&mut crypto_box::aead::OsRng).to_vec()
}

/// Relies on slice::copy_from_slice to turn 32 bytes into a key array.
#[verifier::external_body]
pub(crate) fn key_from_bytes(v: &[u8]) -> (r: [u8; 32])
    requires
        v@.len() == 32,
    ensures
        r@ == v@,
{
    let mut out = [0u8; 32];
    out.copy_from_slice(v);
    out
}

// ---------------------------------------------------------------------------
// Seed phrase
// ---------------------------------------------------------------------------

/// A mnemonic sentence from which the user's whole identity is derived.
#[derive(Clone, Debug)]
pub struct SeedPhrase {
    pub phrase: String,
}

impl SeedPhrase {
    /// A fresh random mnemonic. It must be shown to the user exactly once;
    /// losing it is unrecoverable.
    pub fn new() -> (r: SeedPhrase)
        ensures
            phrase_valid(r.phrase@),
    {
        SeedPhrase { phrase: random_phrase() }
    }

    /// Validate a sentence and wrap it: succeeds exactly on phrases the
    /// word-list and checksum validation accepts, so a phrase obtained here
    /// always derives a key pair. There is no partial validity.
    pub fn parse(value: String) -> (r: Result<SeedPhrase, VaultError>)
        ensures
            r is Ok <==> phrase_valid(value@),
            r matches Ok(p) ==> p.phrase@ == value@,
            r is Err ==> r == Err::<SeedPhrase, VaultError>(VaultError::InvalidSeedPhrase),
    {
        match derive_master_sk(value.as_str()) {
            Some(_) => Ok(SeedPhrase { phrase: value }),
            None => Err(VaultError::InvalidSeedPhrase),
        }
    }

    /// The sentence itself.
    pub fn get_phrase(&self) -> (r: String)
        ensures
            r@ == self.phrase@,
    {
        self.phrase.clone()
    }
}

impl Default for SeedPhrase {
    fn default() -> (r: Self)
        ensures
            phrase_valid(r.phrase@),
    {
        Self::new()
    }
}

impl From<String> for SeedPhrase {
    /// Wraps the sentence unvalidated, for callers that validate next (as
    /// `KeyPair::try_new` does); `SeedPhrase::parse` is the constructor
    /// that refuses invalid sentences outright.
    fn from(value: String) -> (r: SeedPhrase) {
        SeedPhrase { phrase: value }
    }
}

impl vstd::std_specs::convert::FromSpecImpl<String> for SeedPhrase {
    open spec fn obeys_from_spec() -> bool {
        true
    }

    open spec fn from_spec(value: String) -> SeedPhrase {
        SeedPhrase { phrase: value }
    }
}

// ---------------------------------------------------------------------------
// Key pair
// ---------------------------------------------------------------------------

/// The identity derived from a seed phrase: an X25519 key pair held only by
/// an unlocked vault and never persisted in plain text.
#[derive(Clone, Copy, Debug)]
pub struct KeyPair {
    pub private_key: [u8; 32],
    pub public_key: [u8; 32],
}

/// A key pair is well formed when its public half matches its private half.
pub open spec fn kp_wf(kp: KeyPair) -> bool {
    kp.public_key@ == pk_of(kp.private_key@)
}

/// A key pair is exactly the one a mnemonic sentence derives.
pub open spec fn derived_from(kp: KeyPair, phrase: Seq<char>) -> bool {
    &&& kp.private_key@ == master_sk_of(phrase)
    &&& kp_wf(kp)
}

/// An encrypted value holds a plaintext for a key pair: its parts decode
/// from base64, and the box of the pair opens them to the plaintext's UTF-8
/// bytes.
#[verifier::opaque]
pub open spec fn opens_to(kp: KeyPair, v: EncryptedValue, plain: Seq<char>) -> bool {
    exists|nb: Seq<u8>, cb: Seq<u8>|
        {
            &&& #[trigger] b64_of(nb) == v.nonce@
            &&& #[trigger] b64_of(cb) == v.cipher@
            &&& nb.len() == 24
            &&& open_of(kp.private_key@, kp.public_key@, nb, cb) == Some(
                vstd::utf8::encode_utf8(plain),
            )
        }
}

/// The 32-byte all-zero secret key, whose key pair is fixed and publicly
/// known; it anchors the self-authenticating sign/verify tokens.
pub open spec fn zero_key() -> Seq<u8> {
    Seq::new(32, |i: int| 0u8)
}

/// A value is a token signed by the holder of a public key: the box of the
/// all-zero secret key and that public key opens it to the message.
#[verifier::opaque]
pub open spec fn sign_opens_to(signer_pk: Seq<u8>, v: EncryptedValue, plain: Seq<char>) -> bool {
    exists|nb: Seq<u8>, cb: Seq<u8>|
        {
            &&& #[trigger] b64_of(nb) == v.nonce@
            &&& #[trigger] b64_of(cb) == v.cipher@
            &&& nb.len() == 24
            &&& open_of(zero_key(), signer_pk, nb, cb) == Some(vstd::utf8::encode_utf8(plain))
        }
}

impl KeyPair {
    /// Derive the identity of a seed phrase, which must be valid.
    pub fn new(seed_phrase: SeedPhrase) -> (r: KeyPair)
        requires
            phrase_valid(seed_phrase.phrase@),
        ensures
            derived_from(r, seed_phrase.phrase@),
    {
        match Self::try_new(seed_phrase) {
            Ok(kp) => kp,
            Err(_) => vstd::pervasive::unreached(),
        }
    }

    /// Derive the identity of a seed phrase. Succeeds exactly on valid
    /// phrases; the result is a pure function of the sentence, so deriving
    /// twice from the same sentence yields the same keys.
    pub fn try_new(seed_phrase: SeedPhrase) -> (r: Result<KeyPair, VaultError>)
        ensures
            r is Ok <==> phrase_valid(seed_phrase.phrase@),
            r is Err ==> r == Err::<KeyPair, VaultError>(VaultError::InvalidSeedPhrase),
            r matches Ok(kp) ==> derived_from(kp, seed_phrase.phrase@),
    {
        match derive_master_sk(seed_phrase.phrase.as_str()) {
            Some(sk) => {
                let public_key = public_of_secret(&sk);
                Ok(KeyPair { private_key: sk, public_key })
            },
            None => Err(VaultError::InvalidSeedPhrase),
        }
    }

    /// Rebuild the identity from an already-recovered private key,
    /// bypassing mnemonic validation.
    pub fn from_sk(sk: [u8; 32]) -> (r: KeyPair)
        ensures
            r.private_key@ == sk@,
            kp_wf(r),
    {
        let public_key = public_of_secret(&sk);
        KeyPair { private_key: sk, public_key }
    }

    /// Seal a plaintext to this identity itself under a fresh random nonce.
    pub fn encrypt(&self, message: &str) -> (r: EncryptedValue)
        ensures
            opens_to(*self, r, message@),
    {
        let nonce = gen_nonce();
        let sealed = box_seal(
            &self.private_key,
            &self.public_key,
            nonce.as_slice(),
            message.as_bytes(),
        );
        let cipher_text = b64_encode(sealed.as_slice());
        let nonce_text = b64_encode(nonce.as_slice());
        let r = EncryptedValue { cipher: cipher_text, nonce: nonce_text };
        proof {
            reveal(crate::asymmetric::opens_to);
            assert(b64_of(nonce@) == r.nonce@);
            assert(b64_of(sealed@) == r.cipher@);
        }
        r
    }

    /// Open an encrypted value with this identity. Succeeds on exactly the
    /// values this identity sealed, and then returns the sealed plaintext;
    /// tampering, a wrong key or a corrupted nonce fail authentication.
    pub fn decrypt(&self, enc: &EncryptedValue) -> (r: Result<String, VaultError>)
        ensures
            r matches Ok(p) ==> opens_to(*self, *enc, p@),
            r is Err ==> r == Err::<String, VaultError>(VaultError::DecryptionFailed),
            forall|p: Seq<char>|
                opens_to(*self, *enc, p) ==> (r matches Ok(q) && q@ == p),
    {
        proof {
            reveal(crate::asymmetric::opens_to);
        }
        let nonce = match b64_decode(enc.nonce.as_str()) {
            Some(n) => n,
            None => {
                return Err(VaultError::DecryptionFailed);
            },
        };
        if nonce.len() != 24 {
            return Err(VaultError::DecryptionFailed);
        }
        let cipher = match b64_decode(enc.cipher.as_str()) {
            Some(c) => c,
            None => {
                return Err(VaultError::DecryptionFailed);
            },
        };
        let opened = match box_open(
            &self.private_key,
            &self.public_key,
            nonce.as_slice(),
            cipher.as_slice(),
        ) {
            Some(b) => b,
            None => {
                return Err(VaultError::DecryptionFailed);
            },
        };
        match crate::encoding::string_from_utf8(opened) {
            Some(s) => Ok(s),
            None => Err(VaultError::DecryptionFailed),
        }
    }

    /// Seal a message towards the publicly known all-zero key, producing a
    /// token that anyone can check against this identity's public key.
    pub fn sign(&self, message: &str) -> (r: EncryptedValue)
        requires
            kp_wf(*self),
        ensures
            sign_opens_to(self.public_key@, r, message@),
    {
        let zero_sk: [u8; 32] = [0u8; 32];
        let zero_pk = public_of_secret(&zero_sk);
        let nonce = gen_nonce();
        let sealed = box_seal(&self.private_key, &zero_pk, nonce.as_slice(), message.as_bytes());
        proof {
            reveal(crate::asymmetric::sign_opens_to);
            assert(zero_sk@ =~= zero_key());
            assert(open_of(zero_key(), pk_of(self.private_key@), nonce@, sealed@) == Some(
                vstd::utf8::encode_utf8(message@),
            ));
        }
        let cipher_text = b64_encode(sealed.as_slice());
        let nonce_text = b64_encode(nonce.as_slice());
        EncryptedValue { cipher: cipher_text, nonce: nonce_text }
    }

    /// The deterministic keyed hash of a message under this identity,
    /// salted with the public key; it is the credential identifier
    /// derivation.
    pub fn hash(&self, message: &str) -> (r: Result<String, VaultError>)
        ensures
            r matches Ok(h) ==> h@ == keyed_hash_of(self.public_key@, message@),
            r is Err ==> r == Err::<String, VaultError>(VaultError::StorageUnavailable),
    {
        let salt = self.get_pk();
        match hash_password(message, salt.as_str()) {
            Ok(h) => Ok(h.cipher),
            Err(_) => Err(VaultError::StorageUnavailable),
        }
    }

    /// This identity's public key as URL-safe base64 text: its durable,
    /// shareable name.
    pub fn get_pk(&self) -> (r: String)
        ensures
            r@ == b64_of(self.public_key@),
            r@.len() == 44,
            vstd::utf8::is_ascii_chars(r@),
    {
        b64_encode(self.public_key.as_slice())
    }
}

/// Law: deriving from the same seed phrase is deterministic. Any two key
/// pairs derived from one phrase agree bit for bit, in both halves; the
/// phrase alone is the re-authentication mechanism.
pub proof fn lemma_derive_deterministic(k1: KeyPair, k2: KeyPair, phrase: Seq<char>)
    requires
        derived_from(k1, phrase),
        derived_from(k2, phrase),
    ensures
        k1.private_key@ == k2.private_key@,
        k1.public_key@ == k2.public_key@,
{
}

/// Decode a public key from its URL-safe base64 text form.
pub fn public_key_from_base64(pk: &str) -> (r: Result<[u8; 32], VaultError>)
    ensures
        r matches Ok(k) ==> b64_of(k@) == pk@,
        r is Err ==> r == Err::<[u8; 32], VaultError>(VaultError::CorruptOrWrongCredentials),
        forall|bs: Seq<u8>| pk@ == b64_of(bs) && bs.len() == 32 ==> r is Ok,
{
    match b64_decode(pk) {
        Some(bytes) => {
            if bytes.len() == 32 {
                Ok(key_from_bytes(bytes.as_slice()))
            } else {
                Err(VaultError::CorruptOrWrongCredentials)
            }
        },
        None => Err(VaultError::CorruptOrWrongCredentials),
    }
}

/// Check a token against the signer's public key: succeeds on exactly the
/// tokens signed by the holder of that key, and then returns the signed
/// message.
pub fn verify(public_key: &[u8; 32], value: EncryptedValue) -> (r: Result<String, VaultError>)
    ensures
        r matches Ok(p) ==> sign_opens_to(public_key@, value, p@),
        r is Err ==> r == Err::<String, VaultError>(VaultError::InvalidSignature),
        forall|p: Seq<char>|
            sign_opens_to(public_key@, value, p) ==> (r matches Ok(q) && q@ == p),
{
    let zero_sk: [u8; 32] = [0u8; 32];
    proof {
        reveal(crate::asymmetric::sign_opens_to);
        assert(zero_sk@ =~= zero_key());
    }
    let nonce = match b64_decode(value.nonce.as_str()) {
        Some(n) => n,
        None => {
            return Err(VaultError::InvalidSignature);
        },
    };
    if nonce.len() != 24 {
        return Err(VaultError::InvalidSignature);
    }
    let cipher = match b64_decode(value.cipher.as_str()) {
        Some(c) => c,
        None => {
            return Err(VaultError::InvalidSignature);
        },
    };
    let opened = match box_open(&zero_sk, public_key, nonce.as_slice(), cipher.as_slice()) {
        Some(b) => b,
        None => {
            return Err(VaultError::InvalidSignature);
        },
    };
    match crate::encoding::string_from_utf8(opened) {
        Some(s) => Ok(s),
        None => Err(VaultError::InvalidSignature),
    }
}

} // verus!
