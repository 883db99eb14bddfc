use passphrasex::model::EncryptedValue;
use passphrasex::store::PasswordService;
use passphrasex::vault::register;

#[test]
fn create_user_is_refused_once_taken() {
    let mut store = PasswordService::new();
    assert!(store.create_user("pk-alpha").is_ok());
    let err = store.create_user("pk-alpha").unwrap_err();
    assert_eq!(err, "User with id pk-alpha already exists");
    assert!(store.create_user("pk-beta").is_ok());
}

#[test]
fn unknown_user_is_reported_by_name() {
    let store = PasswordService::new();
    let err = store.list_passwords("pk-ghost").unwrap_err();
    assert_eq!(err, "User with id pk-ghost not found");
}

#[test]
fn add_list_delete_round_trip() {
    let mut reg = register("hunter2").unwrap();
    let mut store = PasswordService::new();
    let user = reg.app.key_pair.get_pk();
    store.create_user(&user).unwrap();

    let cred = reg.app.add("example.com", "alice", "s3cret").unwrap();
    let id = cred.id.clone();
    let echoed = store.add_password(&user, cred).unwrap();
    assert_eq!(echoed.id, id);

    // Adding the same identifier again leaves the list as a set.
    let again = reg.app.add("example.com", "alice", "s3cret").unwrap();
    store.add_password(&user, again).unwrap();
    assert_eq!(store.list_passwords(&user).unwrap().len(), 1);

    store.delete_password(&user, &id).unwrap();
    assert!(store.list_passwords(&user).unwrap().is_empty());
    assert!(store.add_password("pk-ghost", reg.app.add("a", "b", "c").unwrap()).is_err());
}

#[test]
fn modify_overwrites_only_the_matching_entry() {
    let mut reg = register("hunter2").unwrap();
    let mut store = PasswordService::new();
    let user = reg.app.key_pair.get_pk();
    store.create_user(&user).unwrap();

    let c1 = reg.app.add("example.com", "alice", "pw-a").unwrap();
    let id1 = c1.id.clone();
    let c2 = reg.app.add("example.com", "bob", "pw-b").unwrap();
    let untouched_cipher = c2.password.cipher.clone();
    store.add_password(&user, c1).unwrap();
    store.add_password(&user, c2).unwrap();

    let fresh = EncryptedValue {
        cipher: "fresh-cipher-text".to_string(),
        nonce: "fresh-nonce-text".to_string(),
    };
    store.modify_password(&user, &id1, &fresh).unwrap();
    let listed = store.list_passwords(&user).unwrap();
    assert_eq!(listed.len(), 2);
    for c in listed {
        if c.id == id1 {
            assert_eq!(c.password.cipher, "fresh-cipher-text");
            assert_eq!(c.password.nonce, "fresh-nonce-text");
        } else {
            assert_eq!(c.password.cipher, untouched_cipher);
        }
    }
}

#[test]
fn modify_without_a_matching_credential_fails() {
    let mut store = PasswordService::new();
    store.create_user("pk-alpha").unwrap();
    let fresh = EncryptedValue { cipher: "c".to_string(), nonce: "n".to_string() };
    let err = store.modify_password("pk-alpha", "missing-id", &fresh).unwrap_err();
    assert_eq!(err, "Credential with id missing-id not found");
    let err = store.modify_password("pk-ghost", "missing-id", &fresh).unwrap_err();
    assert_eq!(err, "User with id pk-ghost not found");
}

#[test]
fn edit_through_the_store_survives_a_sync() {
    let mut reg = register("hunter2").unwrap();
    let mut store = PasswordService::new();
    let user = reg.app.key_pair.get_pk();
    store.create_user(&user).unwrap();

    let cred = reg.app.add("example.com", "alice", "old-pass").unwrap();
    store.add_password(&user, cred.duplicate()).unwrap();
    reg.app.add_commit(cred, Ok(())).unwrap();

    // Edit locally, push the whole fresh EncryptedValue to the store.
    let (id, enc) = reg.app.edit("example.com", "alice", "new-pass").unwrap();
    store.modify_password(&user, &id, &enc).unwrap();
    reg.app.edit_commit(&id, enc, Ok(())).unwrap();

    // A second device syncing from the store decrypts the new password.
    let mut other = passphrasex::vault::auth_device(&reg.seed_phrase.get_phrase(), "elsewhere")
        .unwrap();
    other
        .app
        .sync_commit(store.list_passwords(&user).map_err(|_| {
            passphrasex::errors::RemoteError::Unavailable
        }))
        .unwrap();
    let found = other.app.get("example.com", Some("alice")).unwrap();
    assert_eq!(found[0].password, "new-pass");
}

#[test]
fn store_feeds_the_vault_sync() {
    let mut reg = register("hunter2").unwrap();
    let mut store = PasswordService::new();
    let user = reg.app.key_pair.get_pk();
    store.create_user(&user).unwrap();

    let cred = reg.app.add("example.com", "alice", "s3cret").unwrap();
    store.add_password(&user, cred).unwrap();

    // A fresh device recovers the identity and syncs from the store.
    let mut other = passphrasex::vault::auth_device(&reg.seed_phrase.get_phrase(), "elsewhere")
        .unwrap();
    other.app.sync_commit(store.list_passwords(&user).map_err(|_| {
        passphrasex::errors::RemoteError::Unavailable
    })).unwrap();
    let found = other.app.get("example.com", Some("alice")).unwrap();
    assert_eq!(found[0].password, "s3cret");
}
