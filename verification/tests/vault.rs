use passphrasex::errors::{RemoteError, VaultError};
use passphrasex::vault::{auth_device, register, App, Registration};

const PHRASE: &str = "abandon abandon abandon abandon abandon abandon abandon abandon abandon abandon abandon abandon abandon abandon abandon abandon abandon abandon abandon abandon abandon abandon abandon art";

fn unlocked_vault() -> Registration {
    register("hunter2").expect("registration should succeed")
}

#[test]
fn register_then_unlock_with_correct_password() {
    let reg = unlocked_vault();
    let app = App::new("hunter2", &reg.state).expect("unlock should succeed");
    assert_eq!(app.key_pair.private_key, reg.app.key_pair.private_key);
    assert_eq!(app.key_pair.public_key, reg.app.key_pair.public_key);
}

#[test]
fn unlock_with_wrong_password_fails_and_changes_nothing() {
    let reg = unlocked_vault();
    match App::new("wrong", &reg.state) {
        Err(VaultError::IncorrectDevicePassword) => {}
        _ => panic!("expected IncorrectDevicePassword"),
    }
    // The state was only borrowed; the correct password still unlocks it.
    let app = App::new("hunter2", &reg.state).expect("unlock should still succeed");
    assert_eq!(app.key_pair.private_key, reg.app.key_pair.private_key);
}

#[test]
fn register_seed_phrase_recovers_same_identity() {
    let reg = unlocked_vault();
    let recovered = auth_device(&reg.seed_phrase.get_phrase(), "otherpass")
        .expect("recovery should succeed");
    assert_eq!(recovered.app.key_pair.private_key, reg.app.key_pair.private_key);
}

#[test]
fn auth_device_rejects_invalid_phrase() {
    match auth_device("definitely not a mnemonic", "pw") {
        Err(VaultError::InvalidSeedPhrase) => {}
        _ => panic!("expected InvalidSeedPhrase"),
    }
    assert!(auth_device(PHRASE, "pw").is_ok());
}

#[test]
fn add_then_get_round_trip() {
    let mut reg = unlocked_vault();
    let cred = reg.app.add("example.com", "alice", "s3cret").unwrap();
    assert_eq!(cred.site, "example.com");
    reg.app.add_commit(cred, Ok(())).unwrap();
    let found = reg.app.get("example.com", Some("alice")).unwrap();
    assert_eq!(found.len(), 1);
    assert_eq!(found[0].username, "alice");
    assert_eq!(found[0].password, "s3cret");
    assert_eq!(found[0].site, "example.com");
}

#[test]
fn add_existing_credential_is_refused() {
    let mut reg = unlocked_vault();
    let cred = reg.app.add("example.com", "alice", "s3cret").unwrap();
    reg.app.add_commit(cred, Ok(())).unwrap();
    match reg.app.add("example.com", "alice", "another") {
        Err(VaultError::CredentialAlreadyExists) => {}
        _ => panic!("expected CredentialAlreadyExists"),
    }
}

#[test]
fn add_aborts_when_remote_fails() {
    let mut reg = unlocked_vault();
    let cred = reg.app.add("example.com", "alice", "s3cret").unwrap();
    match reg.app.add_commit(cred, Err(RemoteError::Unavailable)) {
        Err(VaultError::RemoteUnavailable) => {}
        _ => panic!("expected RemoteUnavailable"),
    }
    match reg.app.get("example.com", Some("alice")) {
        Err(VaultError::CredentialNotFound) => {}
        _ => panic!("expected CredentialNotFound"),
    }
}

#[test]
fn delete_then_get_fails_with_not_found() {
    let mut reg = unlocked_vault();
    let cred = reg.app.add("example.com", "alice", "s3cret").unwrap();
    reg.app.add_commit(cred, Ok(())).unwrap();
    let id = reg.app.delete("example.com", "alice").unwrap();
    reg.app.delete_commit(&id, Ok(())).unwrap();
    match reg.app.get("example.com", Some("alice")) {
        Err(VaultError::CredentialNotFound) => {}
        _ => panic!("expected CredentialNotFound"),
    }
}

#[test]
fn delete_unknown_credential_fails() {
    let mut reg = unlocked_vault();
    match reg.app.delete("example.com", "nobody") {
        Err(VaultError::CredentialNotFound) => {}
        _ => panic!("expected CredentialNotFound"),
    }
    match reg.app.delete_commit("bogus-id", Ok(())) {
        Err(VaultError::CredentialNotFound) => {}
        _ => panic!("expected CredentialNotFound"),
    }
}

#[test]
fn edit_replaces_the_password() {
    let mut reg = unlocked_vault();
    let cred = reg.app.add("example.com", "alice", "old-pass").unwrap();
    reg.app.add_commit(cred, Ok(())).unwrap();
    let (id, enc) = reg.app.edit("example.com", "alice", "new-pass").unwrap();
    reg.app.edit_commit(&id, enc, Ok(())).unwrap();
    let found = reg.app.get("example.com", Some("alice")).unwrap();
    assert_eq!(found[0].password, "new-pass");
    assert_eq!(found[0].username, "alice");
}

#[test]
fn edit_aborts_when_remote_fails() {
    let mut reg = unlocked_vault();
    let cred = reg.app.add("example.com", "alice", "old-pass").unwrap();
    reg.app.add_commit(cred, Ok(())).unwrap();
    let (id, enc) = reg.app.edit("example.com", "alice", "new-pass").unwrap();
    match reg.app.edit_commit(&id, enc, Err(RemoteError::Unavailable)) {
        Err(VaultError::RemoteUnavailable) => {}
        _ => panic!("expected RemoteUnavailable"),
    }
    let found = reg.app.get("example.com", Some("alice")).unwrap();
    assert_eq!(found[0].password, "old-pass");
}

#[test]
fn get_whole_site_returns_every_credential() {
    let mut reg = unlocked_vault();
    let c1 = reg.app.add("example.com", "alice", "pw-a").unwrap();
    reg.app.add_commit(c1, Ok(())).unwrap();
    let c2 = reg.app.add("example.com", "bob", "pw-b").unwrap();
    reg.app.add_commit(c2, Ok(())).unwrap();
    let c3 = reg.app.add("other.org", "carol", "pw-c").unwrap();
    reg.app.add_commit(c3, Ok(())).unwrap();
    let mut found = reg
        .app
        .get("example.com", None)
        .unwrap()
        .into_iter()
        .map(|p| (p.username, p.password))
        .collect::<Vec<_>>();
    found.sort();
    assert_eq!(
        found,
        vec![
            ("alice".to_string(), "pw-a".to_string()),
            ("bob".to_string(), "pw-b".to_string())
        ]
    );
    assert!(reg.app.get("unknown.net", None).unwrap().is_empty());
}

#[test]
fn failed_sync_keeps_the_cache_intact() {
    let mut reg = unlocked_vault();
    let cred = reg.app.add("example.com", "alice", "s3cret").unwrap();
    reg.app.add_commit(cred, Ok(())).unwrap();
    match reg.app.sync_commit(Err(RemoteError::Unavailable)) {
        Err(VaultError::RemoteUnavailable) => {}
        _ => panic!("expected RemoteUnavailable"),
    }
    let found = reg.app.get("example.com", Some("alice")).unwrap();
    assert_eq!(found[0].password, "s3cret");
}

#[test]
fn successful_sync_rebuilds_the_cache_wholesale() {
    let mut reg = unlocked_vault();
    let kept = reg.app.add("example.com", "alice", "s3cret").unwrap();
    let local_only = reg.app.add("local.only", "bob", "gone").unwrap();
    reg.app.add_commit(local_only, Ok(())).unwrap();
    reg.app.sync_commit(Ok(vec![kept])).unwrap();
    let found = reg.app.get("example.com", Some("alice")).unwrap();
    assert_eq!(found[0].password, "s3cret");
    match reg.app.get("local.only", Some("bob")) {
        Err(VaultError::CredentialNotFound) => {}
        _ => panic!("expected CredentialNotFound"),
    }
}

#[test]
fn snapshot_persists_the_cache_across_unlocks() {
    let mut reg = unlocked_vault();
    let cred = reg.app.add("example.com", "alice", "s3cret").unwrap();
    reg.app.add_commit(cred, Ok(())).unwrap();
    let mut state = reg.state;
    state.cache = reg.app.snapshot();
    assert_eq!(state.cache.len(), 1);
    let app = App::new("hunter2", &state).expect("unlock should succeed");
    let found = app.get("example.com", Some("alice")).unwrap();
    assert_eq!(found[0].password, "s3cret");
}

#[test]
fn credential_id_is_stable_across_devices() {
    let reg = unlocked_vault();
    let recovered = auth_device(&reg.seed_phrase.get_phrase(), "otherpass").unwrap();
    let id1 = reg.app.credential_id("example.com", "alice").unwrap();
    let id2 = recovered.app.credential_id("example.com", "alice").unwrap();
    assert_eq!(id1, id2);
    let other = register("pw").unwrap();
    let id3 = other.app.credential_id("example.com", "alice").unwrap();
    assert_ne!(id1, id3);
}

#[test]
fn error_messages_are_distinct() {
    let errors = [
        VaultError::InvalidSeedPhrase,
        VaultError::IncorrectDevicePassword,
        VaultError::CorruptOrWrongCredentials,
        VaultError::StorageUnavailable,
        VaultError::DecryptionFailed,
        VaultError::InvalidSignature,
        VaultError::CredentialNotFound,
        VaultError::CredentialAlreadyExists,
        VaultError::RemoteUnavailable,
        VaultError::NotConnected,
    ];
    for (i, a) in errors.iter().enumerate() {
        for (j, b) in errors.iter().enumerate() {
            if i != j {
                assert_ne!(a.message(), b.message());
            }
        }
    }
}
