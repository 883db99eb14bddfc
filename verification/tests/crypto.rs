use passphrasex::asymmetric::{public_key_from_base64, verify, KeyPair, SeedPhrase};
use passphrasex::encoding::{b64_decode, b64_encode, hex_decode, hex_encode};
use passphrasex::errors::VaultError;
use passphrasex::symmetric::{generate_salt, hash_password, verify_password};

const PHRASE: &str = "abandon abandon abandon abandon abandon abandon abandon abandon abandon abandon abandon abandon abandon abandon abandon abandon abandon abandon abandon abandon abandon abandon abandon art";
const OTHER_PHRASE: &str = "zoo zoo zoo zoo zoo zoo zoo zoo zoo zoo zoo zoo zoo zoo zoo zoo zoo zoo zoo zoo zoo zoo zoo vote";

fn key_pair(phrase: &str) -> KeyPair {
    KeyPair::try_new(SeedPhrase { phrase: phrase.to_string() }).expect("phrase should be valid")
}

#[test]
fn derive_is_deterministic() {
    let k1 = key_pair(PHRASE);
    let k2 = key_pair(PHRASE);
    assert_eq!(k1.private_key, k2.private_key);
    assert_eq!(k1.public_key, k2.public_key);
}

#[test]
fn distinct_phrases_give_distinct_keys() {
    let k1 = key_pair(PHRASE);
    let k2 = key_pair(OTHER_PHRASE);
    assert_ne!(k1.private_key, k2.private_key);
    assert_ne!(k1.public_key, k2.public_key);
}

#[test]
fn invalid_phrase_is_rejected() {
    let bad = SeedPhrase { phrase: "not a valid mnemonic sentence at all".to_string() };
    match KeyPair::try_new(bad) {
        Err(VaultError::InvalidSeedPhrase) => {}
        _ => panic!("expected InvalidSeedPhrase"),
    }
}

#[test]
fn generated_phrase_derives_a_key_pair() {
    let phrase = SeedPhrase::new();
    let text = phrase.get_phrase();
    let k1 = KeyPair::new(phrase);
    let k2 = key_pair(&text);
    assert_eq!(k1.private_key, k2.private_key);
}

#[test]
fn default_and_from_build_seed_phrases() {
    let random: SeedPhrase = Default::default();
    assert!(KeyPair::try_new(random).is_ok());
    let fixed = SeedPhrase::from(PHRASE.to_string());
    assert_eq!(fixed.get_phrase(), PHRASE);
}

#[test]
fn parse_refuses_invalid_sentences_outright() {
    let parsed = SeedPhrase::parse(PHRASE.to_string()).unwrap();
    assert_eq!(parsed.get_phrase(), PHRASE);
    match SeedPhrase::parse("not a mnemonic".to_string()) {
        Err(VaultError::InvalidSeedPhrase) => {}
        _ => panic!("expected InvalidSeedPhrase"),
    }
}

#[test]
fn from_sk_reproduces_the_key_pair() {
    let k1 = key_pair(PHRASE);
    let k2 = KeyPair::from_sk(k1.private_key);
    assert_eq!(k1.public_key, k2.public_key);
}

#[test]
fn encrypt_decrypt_round_trip() {
    let kp = key_pair(PHRASE);
    let enc = kp.encrypt("hunter2");
    assert_eq!(kp.decrypt(&enc).unwrap(), "hunter2");
    let empty = kp.encrypt("");
    assert_eq!(kp.decrypt(&empty).unwrap(), "");
}

#[test]
fn encrypt_uses_fresh_nonces() {
    let kp = key_pair(PHRASE);
    let e1 = kp.encrypt("same message");
    let e2 = kp.encrypt("same message");
    assert_ne!(e1.nonce, e2.nonce);
    assert_ne!(e1.cipher, e2.cipher);
}

#[test]
fn decrypt_detects_tampering() {
    let kp = key_pair(PHRASE);
    let mut enc = kp.encrypt("secret");
    enc.cipher = b64_encode(&[0u8; 32]);
    match kp.decrypt(&enc) {
        Err(VaultError::DecryptionFailed) => {}
        _ => panic!("expected DecryptionFailed"),
    }
    let mut bad_nonce = kp.encrypt("secret");
    bad_nonce.nonce = "not base64 !!!".to_string();
    match kp.decrypt(&bad_nonce) {
        Err(VaultError::DecryptionFailed) => {}
        _ => panic!("expected DecryptionFailed"),
    }
}

#[test]
fn decrypt_with_wrong_key_fails() {
    let kp = key_pair(PHRASE);
    let other = key_pair(OTHER_PHRASE);
    let enc = kp.encrypt("secret");
    match other.decrypt(&enc) {
        Err(VaultError::DecryptionFailed) => {}
        _ => panic!("expected DecryptionFailed"),
    }
}

#[test]
fn sign_verify_round_trip() {
    let kp = key_pair(PHRASE);
    let token = kp.sign("challenge-123");
    let pk = public_key_from_base64(&kp.get_pk()).unwrap();
    assert_eq!(verify(&pk, token).unwrap(), "challenge-123");
}

#[test]
fn verify_rejects_wrong_signer() {
    let kp = key_pair(PHRASE);
    let other = key_pair(OTHER_PHRASE);
    let token = kp.sign("challenge-123");
    match verify(&other.public_key, token) {
        Err(VaultError::InvalidSignature) => {}
        _ => panic!("expected InvalidSignature"),
    }
}

#[test]
fn credential_id_hash_is_keyed_and_deterministic() {
    let kp = key_pair(PHRASE);
    let other = key_pair(OTHER_PHRASE);
    let h1 = kp.hash("example.comalice").unwrap();
    let h2 = kp.hash("example.comalice").unwrap();
    let h3 = other.hash("example.comalice").unwrap();
    assert_eq!(h1, h2);
    assert_ne!(h1, h3);
}

#[test]
fn public_key_base64_round_trip() {
    let kp = key_pair(PHRASE);
    let decoded = public_key_from_base64(&kp.get_pk()).unwrap();
    assert_eq!(decoded, kp.public_key);
    match public_key_from_base64("AA==") {
        Err(VaultError::CorruptOrWrongCredentials) => {}
        _ => panic!("expected CorruptOrWrongCredentials"),
    }
}

#[test]
fn hex_encoding_exact_values() {
    assert_eq!(hex_encode(&[]), "");
    assert_eq!(hex_encode(&[0x00, 0xff, 0x1a]), "00ff1a");
    assert_eq!(hex_decode("00ff1a").unwrap(), vec![0x00, 0xff, 0x1a]);
    assert!(hex_decode("0").is_none());
    assert!(hex_decode("zz").is_none());
}

#[test]
fn base64_encoding_round_trip() {
    assert_eq!(b64_encode(&[]), "");
    assert_eq!(b64_encode(&[0]), "AA==");
    let bytes: Vec<u8> = (0u8..=255).collect();
    let text = b64_encode(&bytes);
    assert_eq!(b64_decode(&text).unwrap(), bytes);
    assert!(b64_decode("not *base64*").is_none());
}

#[test]
fn password_hash_verifies_and_rejects() {
    let salt = generate_salt();
    assert_eq!(salt.len(), 44);
    let record = hash_password("hunter2", &salt).unwrap();
    assert_eq!(record.nonce, salt);
    let again = hash_password("hunter2", &salt).unwrap();
    assert_eq!(record.cipher, again.cipher);
    assert!(verify_password("hunter2", &record.cipher, &salt).unwrap());
    assert!(!verify_password("wrong", &record.cipher, &salt).unwrap());
}

#[test]
fn password_hash_refuses_bad_salt() {
    match hash_password("hunter2", "short") {
        Err(VaultError::CorruptOrWrongCredentials) => {}
        _ => panic!("expected CorruptOrWrongCredentials"),
    }
}
