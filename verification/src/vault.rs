use vstd::prelude::*;
use vstd::string::StringExecFns;

use crate::asymmetric::{derived_from, key_from_bytes, kp_wf, opens_to, phrase_valid, KeyPair,
    SeedPhrase};
use crate::cache::{with_password, CredentialsMap};
use crate::encoding::b64_of;
use crate::errors::{RemoteError, VaultError};
use crate::model::{Credential, EncryptedValue, Password, PasswordHash};
use crate::symmetric::{data_opens_to, decrypt_data, encrypt_data, generate_salt, hash_password,
    hashed, keyed_hash_of, password_hash_of, valid_salt, verify_password};

verus! {

// ---------------------------------------------------------------------------
// Persisted state
// ---------------------------------------------------------------------------

/// Everything the vault keeps on disk, as plain values: the device-password
/// record, the wrapped private key, and the cache snapshot. Reading and
/// writing the actual files is the embedder's concern.
pub struct PersistedState {
    pub password_hash: PasswordHash,
    pub encrypted_sk: EncryptedValue,
    pub cache: CredentialsMap,
}

/// The symmetric key guarding the private key at rest: the memory-hard hash
/// of the device password under the persisted salt.
pub open spec fn guard_key(state: PersistedState, pass: Seq<char>) -> Seq<u8> {
    password_hash_of(
        vstd::utf8::encode_utf8(pass),
        vstd::utf8::encode_utf8(state.password_hash.nonce@),
    )
}

/// A persisted state can be unlocked by a device password: the salt is
/// usable, the stored hash matches the password, and the wrapped private
/// key opens to 32 bytes under the derived guard key.
pub open spec fn unlockable(state: PersistedState, pass: Seq<char>) -> bool {
    &&& valid_salt(state.password_hash.nonce@)
    &&& state.password_hash.cipher@ == hashed(pass, state.password_hash.nonce@)
    &&& exists|d: Seq<u8>|
        #[trigger] data_opens_to(guard_key(state, pass), state.encrypted_sk, d) && d.len() == 32
}

/// The deterministic identifier of a credential: the keyed hash of
/// site and username, concatenated, under the identity's public key.
pub open spec fn credential_id_of(pk: Seq<u8>, site: Seq<char>, username: Seq<char>) -> Seq<char> {
    keyed_hash_of(pk, site + username)
}

/// What a fresh registration or recovery hands back: the mnemonic, the
/// state to persist, and the unlocked session.
pub struct Registration {
    pub seed_phrase: SeedPhrase,
    pub state: PersistedState,
    pub app: App,
}

// ---------------------------------------------------------------------------
// The unlocked vault session
// ---------------------------------------------------------------------------

/// An unlocked vault: the identity's key pair and the local credential
/// cache. All mutating operations go through a prepare step that computes
/// what to send to the remote store, and a commit step that applies the
/// remote outcome; the cache is never updated ahead of a confirmed remote
/// write.
pub struct App {
    pub key_pair: KeyPair,
    pub credentials: CredentialsMap,
}

impl View for App {
    type V = Map<Seq<char>, Credential>;

    open spec fn view(&self) -> Map<Seq<char>, Credential> {
        self.credentials@
    }
}

impl App {
    /// The key pair halves match and cached identifiers never repeat.
    pub open spec fn wf(&self) -> bool {
        &&& kp_wf(self.key_pair)
        &&& self.credentials.wf()
    }

    /// Unlock the vault from persisted state with the device password: no
    /// remote round trip, so an offline unlock succeeds on an intact state.
    /// Wrong passwords are told apart from corrupt state, and nothing is
    /// mutated either way.
    pub fn new(device_pass: &str, state: &PersistedState) -> (r: Result<App, VaultError>)
        requires
            state.cache.wf(),
        ensures
            r matches Ok(app) ==> {
                &&& state.password_hash.cipher@ == hashed(
                    device_pass@,
                    state.password_hash.nonce@,
                )
                &&& app.wf()
                &&& data_opens_to(
                    guard_key(*state, device_pass@),
                    state.encrypted_sk,
                    app.key_pair.private_key@,
                )
                &&& app@ == state.cache@
            },
            r == Err::<App, VaultError>(VaultError::IncorrectDevicePassword)
                ==> state.password_hash.cipher@ != hashed(
                device_pass@,
                state.password_hash.nonce@,
            ),
            unlockable(*state, device_pass@) ==> (r is Ok || r == Err::<App, VaultError>(
                VaultError::StorageUnavailable,
            )),
            !valid_salt(state.password_hash.nonce@) ==> r == Err::<App, VaultError>(
                VaultError::CorruptOrWrongCredentials,
            ),
            valid_salt(state.password_hash.nonce@) && state.password_hash.cipher@ != hashed(
                device_pass@,
                state.password_hash.nonce@,
            ) ==> (r == Err::<App, VaultError>(VaultError::IncorrectDevicePassword) || r == Err::<
                App,
                VaultError,
            >(VaultError::StorageUnavailable)),
    {
        let matches = match verify_password(
            device_pass,
            state.password_hash.cipher.as_str(),
            state.password_hash.nonce.as_str(),
        ) {
            Ok(b) => b,
            Err(e) => {
                return Err(e);
            },
        };
        if !matches {
            return Err(VaultError::IncorrectDevicePassword);
        }
        let sk_bytes = match decrypt_data(state.password_hash.cipher.as_str(), &state.encrypted_sk)
            {
            Ok(b) => b,
            Err(_) => {
                return Err(VaultError::CorruptOrWrongCredentials);
            },
        };
        if sk_bytes.len() != 32 {
            return Err(VaultError::CorruptOrWrongCredentials);
        }
        let key_pair = KeyPair::from_sk(key_from_bytes(sk_bytes.as_slice()));
        Ok(App { key_pair, credentials: state.cache.duplicate() })
    }

    /// The identifier this identity derives for a site and username.
    pub fn credential_id(&self, site: &str, username: &str) -> (r: Result<String, VaultError>)
        ensures
            r matches Ok(id) ==> id@ == credential_id_of(
                self.key_pair.public_key@,
                site@,
                username@,
            ),
            r is Err ==> r == Err::<String, VaultError>(VaultError::StorageUnavailable),
    {
        let mut message = site.to_owned();
        message.append(username);
        self.key_pair.hash(message.as_str())
    }

    /// Prepare adding a credential: refuse an identifier already cached,
    /// otherwise encrypt both fields and build the record to submit to the
    /// remote store. The cache itself is untouched until the remote
    /// confirms, through `add_commit`.
    pub fn add(&self, site: &str, username: &str, password: &str) -> (r: Result<
        Credential,
        VaultError,
    >)
        requires
            self.wf(),
        ensures
            r matches Ok(c) ==> {
                &&& !self@.contains_key(
                    credential_id_of(self.key_pair.public_key@, site@, username@),
                )
                &&& c.id@ == credential_id_of(self.key_pair.public_key@, site@, username@)
                &&& c.site@ == site@
                &&& c.user_id@ == b64_of(self.key_pair.public_key@)
                &&& opens_to(self.key_pair, c.username, username@)
                &&& opens_to(self.key_pair, c.password, password@)
            },
            r == Err::<Credential, VaultError>(VaultError::CredentialAlreadyExists)
                ==> self@.contains_key(
                credential_id_of(self.key_pair.public_key@, site@, username@),
            ),
            self@.contains_key(credential_id_of(self.key_pair.public_key@, site@, username@)) ==> (
            r == Err::<Credential, VaultError>(VaultError::CredentialAlreadyExists) || r == Err::<
                Credential,
                VaultError,
            >(VaultError::StorageUnavailable)),
            r is Err ==> (r == Err::<Credential, VaultError>(VaultError::CredentialAlreadyExists)
                || r == Err::<Credential, VaultError>(VaultError::StorageUnavailable)),
    {
        let id = match self.credential_id(site, username) {
            Ok(i) => i,
            Err(_) => {
                return Err(VaultError::StorageUnavailable);
            },
        };
        match self.credentials.find(id.as_str()) {
            Some(_) => Err(VaultError::CredentialAlreadyExists),
            None => {
                let username_enc = self.key_pair.encrypt(username);
                let password_enc = self.key_pair.encrypt(password);
                Ok(
                    Credential {
                        id,
                        user_id: self.key_pair.get_pk(),
                        site: site.to_owned(),
                        username: username_enc,
                        password: password_enc,
                    },
                )
            },
        }
    }

    /// Apply the remote outcome of an add: only a confirmed remote write
    /// inserts into the cache; a remote failure aborts the whole operation
    /// with the cache unchanged.
    pub fn add_commit(&mut self, credential: Credential, remote: Result<(), RemoteError>) -> (r:
        Result<(), VaultError>)
        requires
            old(self).wf(),
        ensures
            final(self).wf(),
            final(self).key_pair == old(self).key_pair,
            remote is Err ==> final(self)@ == old(self)@ && r == Err::<(), VaultError>(
                VaultError::RemoteUnavailable,
            ),
            remote is Ok && old(self)@.contains_key(credential.id@) ==> final(self)@ == old(self)@
                && r == Err::<(), VaultError>(VaultError::CredentialAlreadyExists),
            remote is Ok && !old(self)@.contains_key(credential.id@) ==> final(self)@ == old(
                self,
            )@.insert(credential.id@, credential) && r is Ok,
    {
        match remote {
            Err(_) => Err(VaultError::RemoteUnavailable),
            Ok(_) => {
                let present = self.credentials.find(credential.id.as_str()).is_some();
                if present {
                    Err(VaultError::CredentialAlreadyExists)
                } else {
                    self.credentials.insert(credential);
                    Ok(())
                }
            },
        }
    }

    /// Read credentials from the local cache alone: a single one when the
    /// username is given, else every credential under the site. No remote
    /// round trip is made or needed.
    pub fn get(&self, site: &str, username: Option<&str>) -> (r: Result<Vec<Password>, VaultError>)
        requires
            self.wf(),
        ensures
            (match username {
                Some(u) => self.got_one(site@, u@, r),
                None => self.got_all(site@, r),
            }),
    {
        match username {
            Some(u) => self.get_one(site, u),
            None => self.get_all(site),
        }
    }

    /// What a single-credential read returns: the one cached credential
    /// under the derived identifier, decrypted; `CredentialNotFound` exactly
    /// when no such credential is cached.
    pub open spec fn got_one(
        &self,
        site: Seq<char>,
        u: Seq<char>,
        r: Result<Vec<Password>, VaultError>,
    ) -> bool {
        let id = credential_id_of(self.key_pair.public_key@, site, u);
        &&& (r matches Ok(ps) ==> ps@.len() == 1 && self@.contains_key(id) && ps@[0].site@
            == self@[id].site@ && opens_to(self.key_pair, self@[id].username, ps@[0].username@)
            && opens_to(self.key_pair, self@[id].password, ps@[0].password@))
        &&& (r == Err::<Vec<Password>, VaultError>(VaultError::CredentialNotFound)
            ==> !self@.contains_key(id))
        &&& (!self@.contains_key(id) ==> (r == Err::<Vec<Password>, VaultError>(
            VaultError::CredentialNotFound,
        ) || r == Err::<Vec<Password>, VaultError>(VaultError::StorageUnavailable)))
        &&& (forall|un: Seq<char>, pw: Seq<char>|
            self@.contains_key(id) && opens_to(self.key_pair, self@[id].username, un) && opens_to(
                self.key_pair,
                self@[id].password,
                pw,
            ) ==> (r == Err::<Vec<Password>, VaultError>(VaultError::StorageUnavailable) || (
            r matches Ok(ps) && ps@[0].username@ == un && ps@[0].password@ == pw)))
        &&& (r is Err ==> (r == Err::<Vec<Password>, VaultError>(VaultError::CredentialNotFound)
            || r == Err::<Vec<Password>, VaultError>(VaultError::StorageUnavailable) || r == Err::<
            Vec<Password>,
            VaultError,
        >(VaultError::DecryptionFailed)))
    }

    /// Every cached credential of the site decrypts: both of its fields
    /// open to some plaintext under the identity's key pair.
    pub open spec fn site_decryptable(&self, site: Seq<char>) -> bool {
        forall|k: Seq<char>|
            self@.contains_key(k) && (#[trigger] self@[k]).site@ == site ==> exists|
                un: Seq<char>,
                pw: Seq<char>,
            |
                opens_to(self.key_pair, self@[k].username, un) && opens_to(
                    self.key_pair,
                    self@[k].password,
                    pw,
                )
    }

    /// What a site-wide read returns: one decryption of every cached
    /// credential of the site and nothing else; success is owed whenever
    /// every cached credential of the site decrypts.
    pub open spec fn got_all(&self, site: Seq<char>, r: Result<Vec<Password>, VaultError>) -> bool {
        &&& (r matches Ok(ps) ==> (forall|j: int|
            0 <= j < ps@.len() ==> (#[trigger] ps@[j]).site@ == site && exists|k: Seq<char>|
                self@.contains_key(k) && (#[trigger] self@[k]).site@ == site && opens_to(
                    self.key_pair,
                    self@[k].username,
                    ps@[j].username@,
                ) && opens_to(self.key_pair, self@[k].password, ps@[j].password@)))
        &&& (r matches Ok(ps) ==> (forall|k: Seq<char>|
            self@.contains_key(k) && (#[trigger] self@[k]).site@ == site ==> exists|j: int|
                0 <= j < ps@.len() && opens_to(
                    self.key_pair,
                    self@[k].username,
                    (#[trigger] ps@[j]).username@,
                ) && opens_to(self.key_pair, self@[k].password, ps@[j].password@)))
        &&& (self.site_decryptable(site) ==> r is Ok)
        &&& (r is Err ==> r == Err::<Vec<Password>, VaultError>(VaultError::DecryptionFailed))
    }

    fn get_one(&self, site: &str, u: &str) -> (r: Result<Vec<Password>, VaultError>)
        requires
            self.wf(),
        ensures
            self.got_one(site@, u@, r),
    {
        let id = match self.credential_id(site, u) {
            Ok(i) => i,
            Err(_) => {
                return Err(VaultError::StorageUnavailable);
            },
        };
        match self.credentials.find(id.as_str()) {
            None => Err(VaultError::CredentialNotFound),
            Some(c) => {
                let username_dec = match self.key_pair.decrypt(&c.username) {
                    Ok(s) => s,
                    Err(_) => {
                        return Err(VaultError::DecryptionFailed);
                    },
                };
                let password_dec = match self.key_pair.decrypt(&c.password) {
                    Ok(s) => s,
                    Err(_) => {
                        return Err(VaultError::DecryptionFailed);
                    },
                };
                let mut out: Vec<Password> = Vec::new();
                out.push(
                    Password {
                        site: c.site.clone(),
                        username: username_dec,
                        password: password_dec,
                    },
                );
                proof {
                    let idspec = credential_id_of(self.key_pair.public_key@, site@, u@);
                    assert(*c == self@[idspec]);
                    assert(out@[0].site@ == self@[idspec].site@);
                    assert(opens_to(self.key_pair, self@[idspec].username, out@[0].username@));
                    assert forall|un: Seq<char>, pw: Seq<char>|
                        opens_to(self.key_pair, self@[idspec].username, un) && opens_to(
                            self.key_pair,
                            self@[idspec].password,
                            pw,
                        ) implies (out@[0].username@ == un && out@[0].password@ == pw) by {
                        assert(opens_to(self.key_pair, c.username, un));
                        assert(opens_to(self.key_pair, c.password, pw));
                    }
                }
                Ok(out)
            },
        }
    }

    #[verifier::rlimit(100)]
    #[verifier::spinoff_prover]
    fn get_all(&self, site: &str) -> (r: Result<Vec<Password>, VaultError>)
        requires
            self.wf(),
        ensures
            self.got_all(site@, r),
    {
        let creds = self.credentials.get_site(site);
        let mut out: Vec<Password> = Vec::new();
        let n = creds.len();
        for i in 0..n
            invariant
                n == creds@.len(),
                self.wf(),
                out@.len() == i,
                forall|j: int|
                    0 <= j < creds@.len() ==> self@.contains_key(#[trigger] creds@[j].id@)
                        && self@[creds@[j].id@] == creds@[j] && creds@[j].site@ == site@,
                forall|k: Seq<char>|
                    self@.contains_key(k) && (#[trigger] self@[k]).site@ == site@ ==> exists|
                        j: int,
                    | 0 <= j < creds@.len() && creds@[j].id@ == k,
                forall|j: int|
                    0 <= j < i ==> opens_to(
                        self.key_pair,
                        creds@[j].username,
                        (#[trigger] out@[j]).username@,
                    ) && opens_to(self.key_pair, creds@[j].password, out@[j].password@)
                        && out@[j].site@ == creds@[j].site@,
        {
            let username_dec = match self.key_pair.decrypt(&creds[i].username) {
                Ok(s) => s,
                Err(_) => {
                    proof {
                        assert(self@.contains_key(creds@[i as int].id@) && self@[creds@[i as int].id@]
                            == creds@[i as int] && creds@[i as int].site@ == site@);
                        lemma_not_site_decryptable_username(*self, site@, creds@[i as int]);
                    }
                    return Err(VaultError::DecryptionFailed);
                },
            };
            let password_dec = match self.key_pair.decrypt(&creds[i].password) {
                Ok(s) => s,
                Err(_) => {
                    proof {
                        assert(self@.contains_key(creds@[i as int].id@) && self@[creds@[i as int].id@]
                            == creds@[i as int] && creds@[i as int].site@ == site@);
                        lemma_not_site_decryptable_password(*self, site@, creds@[i as int]);
                    }
                    return Err(VaultError::DecryptionFailed);
                },
            };
            let ghost pre = out@;
            out.push(
                Password {
                    site: creds[i].site.clone(),
                    username: username_dec,
                    password: password_dec,
                },
            );
            proof {
                assert forall|j: int|
                    0 <= j < i + 1 implies opens_to(
                    self.key_pair,
                    creds@[j].username,
                    (#[trigger] out@[j]).username@,
                ) && opens_to(self.key_pair, creds@[j].password, out@[j].password@) && out@[j].site@
                    == creds@[j].site@ by {
                    if j < i {
                        assert(out@[j] == pre[j]);
                    } else {
                        assert(out@[j] == out@[out@.len() - 1]);
                    }
                }
            }
        }
        proof {
            assert forall|k: Seq<char>|
                self@.contains_key(k) && (#[trigger] self@[k]).site@ == site@ implies exists|
                j: int,
            |
                0 <= j < out@.len() && opens_to(
                    self.key_pair,
                    self@[k].username,
                    (#[trigger] out@[j]).username@,
                ) && opens_to(self.key_pair, self@[k].password, out@[j].password@) by {
                let j = choose|j: int| 0 <= j < creds@.len() && creds@[j].id@ == k;
                assert(self@[k] == creds@[j]);
                assert(opens_to(self.key_pair, self@[k].username, out@[j].username@));
            }
            assert forall|j: int| 0 <= j < out@.len() implies (#[trigger] out@[j]).site@ == site@
                && exists|k: Seq<char>|
                self@.contains_key(k) && (#[trigger] self@[k]).site@ == site@ && opens_to(
                    self.key_pair,
                    self@[k].username,
                    out@[j].username@,
                ) && opens_to(self.key_pair, self@[k].password, out@[j].password@) by {
                let k = creds@[j].id@;
                assert(self@.contains_key(k) && self@[k] == creds@[j]);
                assert(opens_to(self.key_pair, self@[k].username, out@[j].username@));
                assert(opens_to(self.key_pair, self@[k].password, out@[j].password@));
            }
            let rr = Result::<Vec<Password>, VaultError>::Ok(out);
            assert(rr matches Ok(ps) ==> ps@ == out@);
            assert(self.got_all(site@, rr));
        }
        Ok(out)
    }

    /// Prepare replacing a credential's password: derive the identifier,
    /// require it cached, and encrypt the new password for submission.
    pub fn edit(&self, site: &str, username: &str, new_password: &str) -> (r: Result<
        (String, EncryptedValue),
        VaultError,
    >)
        requires
            self.wf(),
        ensures
            r matches Ok(iv) ==> iv.0@ == credential_id_of(
                self.key_pair.public_key@,
                site@,
                username@,
            ) && self@.contains_key(iv.0@) && opens_to(self.key_pair, iv.1, new_password@),
            r == Err::<(String, EncryptedValue), VaultError>(VaultError::CredentialNotFound)
                ==> !self@.contains_key(
                credential_id_of(self.key_pair.public_key@, site@, username@),
            ),
            !self@.contains_key(credential_id_of(self.key_pair.public_key@, site@, username@))
                ==> (r == Err::<(String, EncryptedValue), VaultError>(
                VaultError::CredentialNotFound,
            ) || r == Err::<(String, EncryptedValue), VaultError>(VaultError::StorageUnavailable)),
            r is Err ==> (r == Err::<(String, EncryptedValue), VaultError>(
                VaultError::CredentialNotFound,
            ) || r == Err::<(String, EncryptedValue), VaultError>(VaultError::StorageUnavailable)),
    {
        let id = match self.credential_id(site, username) {
            Ok(i) => i,
            Err(_) => {
                return Err(VaultError::StorageUnavailable);
            },
        };
        match self.credentials.find(id.as_str()) {
            None => Err(VaultError::CredentialNotFound),
            Some(_) => {
                let enc = self.key_pair.encrypt(new_password);
                Ok((id, enc))
            },
        }
    }

    /// Apply the remote outcome of an edit: on confirmation overwrite the
    /// cached entry's password field in place; a missing entry is a
    /// `CredentialNotFound`, never a silently fabricated one.
    pub fn edit_commit(
        &mut self,
        id: &str,
        new_password: EncryptedValue,
        remote: Result<(), RemoteError>,
    ) -> (r: Result<(), VaultError>)
        requires
            old(self).wf(),
        ensures
            final(self).wf(),
            final(self).key_pair == old(self).key_pair,
            remote is Err ==> final(self)@ == old(self)@ && r == Err::<(), VaultError>(
                VaultError::RemoteUnavailable,
            ),
            remote is Ok && !old(self)@.contains_key(id@) ==> final(self)@ == old(self)@ && r
                == Err::<(), VaultError>(VaultError::CredentialNotFound),
            remote is Ok && old(self)@.contains_key(id@) ==> final(self)@ == old(self)@.insert(
                id@,
                with_password(old(self)@[id@], new_password),
            ) && r is Ok,
    {
        match remote {
            Err(_) => Err(VaultError::RemoteUnavailable),
            Ok(_) => {
                if self.credentials.set_password(id, new_password) {
                    Ok(())
                } else {
                    Err(VaultError::CredentialNotFound)
                }
            },
        }
    }

    /// Prepare deleting a credential: derive the identifier and require it
    /// cached; the remote deletion request is keyed by it.
    pub fn delete(&self, site: &str, username: &str) -> (r: Result<String, VaultError>)
        requires
            self.wf(),
        ensures
            r matches Ok(id) ==> id@ == credential_id_of(
                self.key_pair.public_key@,
                site@,
                username@,
            ) && self@.contains_key(id@),
            r == Err::<String, VaultError>(VaultError::CredentialNotFound) ==> !self@.contains_key(
                credential_id_of(self.key_pair.public_key@, site@, username@),
            ),
            !self@.contains_key(credential_id_of(self.key_pair.public_key@, site@, username@))
                ==> (r == Err::<String, VaultError>(VaultError::CredentialNotFound) || r == Err::<
                String,
                VaultError,
            >(VaultError::StorageUnavailable)),
            r is Err ==> (r == Err::<String, VaultError>(VaultError::CredentialNotFound) || r
                == Err::<String, VaultError>(VaultError::StorageUnavailable)),
    {
        let id = match self.credential_id(site, username) {
            Ok(i) => i,
            Err(_) => {
                return Err(VaultError::StorageUnavailable);
            },
        };
        match self.credentials.find(id.as_str()) {
            None => Err(VaultError::CredentialNotFound),
            Some(_) => Ok(id),
        }
    }

    /// Apply the remote outcome of a delete: local removal happens only
    /// after the remote confirms, preserving the remote's authority.
    pub fn delete_commit(&mut self, id: &str, remote: Result<(), RemoteError>) -> (r: Result<
        (),
        VaultError,
    >)
        requires
            old(self).wf(),
        ensures
            final(self).wf(),
            final(self).key_pair == old(self).key_pair,
            remote is Err ==> final(self)@ == old(self)@ && r == Err::<(), VaultError>(
                VaultError::RemoteUnavailable,
            ),
            remote is Ok && !old(self)@.contains_key(id@) ==> final(self)@ == old(self)@ && r
                == Err::<(), VaultError>(VaultError::CredentialNotFound),
            remote is Ok && old(self)@.contains_key(id@) ==> final(self)@ == old(self)@.remove(id@)
                && r is Ok,
    {
        match remote {
            Err(_) => Err(VaultError::RemoteUnavailable),
            Ok(_) => {
                match self.credentials.remove(id) {
                    Some(_) => Ok(()),
                    None => Err(VaultError::CredentialNotFound),
                }
            },
        }
    }

    /// Apply the outcome of a full remote fetch: on success the cache is
    /// rebuilt wholesale from the fetched set; on failure the cache on hand
    /// is kept intact and the failure is reported, never swallowed.
    pub fn sync_commit(&mut self, remote: Result<Vec<Credential>, RemoteError>) -> (r: Result<
        (),
        VaultError,
    >)
        requires
            old(self).wf(),
        ensures
            final(self).wf(),
            final(self).key_pair == old(self).key_pair,
            remote is Err ==> final(self)@ == old(self)@ && r == Err::<(), VaultError>(
                VaultError::RemoteUnavailable,
            ),
            remote matches Ok(list) ==> {
                &&& r is Ok
                &&& forall|k: Seq<char>|
                    final(self)@.contains_key(k) <==> exists|i: int|
                        0 <= i < list@.len() && (#[trigger] list@[i]).id@ == k
                &&& forall|k: Seq<char>|
                    final(self)@.contains_key(k) ==> exists|i: int|
                        0 <= i < list@.len() && #[trigger] list@[i] == final(self)@[k]
                            && list@[i].id@ == k
            },
    {
        match remote {
            Err(_) => Err(VaultError::RemoteUnavailable),
            Ok(list) => {
                self.credentials = CredentialsMap::from_list(&list);
                Ok(())
            },
        }
    }

    /// An equal copy of the cache, for the embedder to persist.
    pub fn snapshot(&self) -> (r: CredentialsMap)
        requires
            self.wf(),
        ensures
            r.wf(),
            r@ == self@,
    {
        self.credentials.duplicate()
    }
}

/// A cached credential of the site whose username field opens to no
/// plaintext defeats `site_decryptable`.
proof fn lemma_not_site_decryptable_username(app: App, site: Seq<char>, c: Credential)
    requires
        app@.contains_key(c.id@),
        app@[c.id@] == c,
        c.site@ == site,
        forall|un: Seq<char>| !opens_to(app.key_pair, c.username, un),
    ensures
        !app.site_decryptable(site),
{
    assert(!(exists|un: Seq<char>, pw: Seq<char>|
        opens_to(app.key_pair, app@[c.id@].username, un) && opens_to(
            app.key_pair,
            app@[c.id@].password,
            pw,
        )));
}

/// A cached credential of the site whose password field opens to no
/// plaintext defeats `site_decryptable`.
proof fn lemma_not_site_decryptable_password(app: App, site: Seq<char>, c: Credential)
    requires
        app@.contains_key(c.id@),
        app@[c.id@] == c,
        c.site@ == site,
        forall|pw: Seq<char>| !opens_to(app.key_pair, c.password, pw),
    ensures
        !app.site_decryptable(site),
{
    assert(!(exists|un: Seq<char>, pw: Seq<char>|
        opens_to(app.key_pair, app@[c.id@].username, un) && opens_to(
            app.key_pair,
            app@[c.id@].password,
            pw,
        )));
}

// ---------------------------------------------------------------------------
// Registration and recovery
// ---------------------------------------------------------------------------

/// Register a fresh identity guarded by a device password: generate a
/// mnemonic, derive its key pair, hash the password under a fresh salt,
/// wrap the private key, and hand back the state to persist together with
/// the unlocked session. The embedder registers the public key with the
/// remote store and writes the state only as a whole.
pub fn register(device_pass: &str) -> (r: Result<Registration, VaultError>)
    ensures
        r matches Ok(reg) ==> {
            &&& phrase_valid(reg.seed_phrase.phrase@)
            &&& derived_from(reg.app.key_pair, reg.seed_phrase.phrase@)
            &&& unlockable(reg.state, device_pass@)
            &&& data_opens_to(
                guard_key(reg.state, device_pass@),
                reg.state.encrypted_sk,
                reg.app.key_pair.private_key@,
            )
            &&& reg.state.cache@ == Map::<Seq<char>, Credential>::empty()
            &&& reg.app@ == Map::<Seq<char>, Credential>::empty()
            &&& reg.app.wf()
            &&& reg.state.cache.wf()
        },
        r is Err ==> r == Err::<Registration, VaultError>(VaultError::StorageUnavailable),
{
    let seed_phrase = SeedPhrase::new();
    build_registration(seed_phrase, device_pass)
}

/// Recover an identity on a new device from its seed phrase, independent of
/// any existing local state, and re-wrap it under the device password. The
/// cache starts empty; the embedder follows with a sync, whose failure is
/// non-fatal.
pub fn auth_device(seed_phrase: &str, device_pass: &str) -> (r: Result<Registration, VaultError>)
    ensures
        r matches Ok(reg) ==> {
            &&& reg.seed_phrase.phrase@ == seed_phrase@
            &&& derived_from(reg.app.key_pair, seed_phrase@)
            &&& unlockable(reg.state, device_pass@)
            &&& data_opens_to(
                guard_key(reg.state, device_pass@),
                reg.state.encrypted_sk,
                reg.app.key_pair.private_key@,
            )
            &&& reg.state.cache@ == Map::<Seq<char>, Credential>::empty()
            &&& reg.app@ == Map::<Seq<char>, Credential>::empty()
            &&& reg.app.wf()
            &&& reg.state.cache.wf()
        },
        r == Err::<Registration, VaultError>(VaultError::InvalidSeedPhrase) <==> !phrase_valid(
            seed_phrase@,
        ),
        r is Err ==> (r == Err::<Registration, VaultError>(VaultError::InvalidSeedPhrase) || r
            == Err::<Registration, VaultError>(VaultError::StorageUnavailable)),
{
    match SeedPhrase::parse(seed_phrase.to_owned()) {
        Ok(phrase) => build_registration(phrase, device_pass),
        Err(_) => Err(VaultError::InvalidSeedPhrase),
    }
}

/// Law: the credential identifier is a pure function of the identity and
/// the `(site, username)` pair. Two devices that derived their key pairs
/// from the same seed phrase derive the same identifier for the same pair,
/// so lookups need no server-assigned counter.
pub proof fn lemma_credential_id_stable(
    k1: KeyPair,
    k2: KeyPair,
    phrase: Seq<char>,
    site: Seq<char>,
    username: Seq<char>,
)
    requires
        derived_from(k1, phrase),
        derived_from(k2, phrase),
    ensures
        credential_id_of(k1.public_key@, site, username) == credential_id_of(
            k2.public_key@,
            site,
            username,
        ),
{
    crate::asymmetric::lemma_derive_deterministic(k1, k2, phrase);
}

/// Derive the identity of a valid seed phrase, wrap its private key under
/// the device password with a fresh salt, and assemble the state to
/// persist.
fn build_registration(seed_phrase: SeedPhrase, device_pass: &str) -> (r: Result<
    Registration,
    VaultError,
>)
    requires
        phrase_valid(seed_phrase.phrase@),
    ensures
        r matches Ok(reg) ==> {
            &&& reg.seed_phrase.phrase@ == seed_phrase.phrase@
            &&& phrase_valid(reg.seed_phrase.phrase@)
            &&& derived_from(reg.app.key_pair, reg.seed_phrase.phrase@)
            &&& unlockable(reg.state, device_pass@)
            &&& data_opens_to(
                guard_key(reg.state, device_pass@),
                reg.state.encrypted_sk,
                reg.app.key_pair.private_key@,
            )
            &&& reg.state.cache@ == Map::<Seq<char>, Credential>::empty()
            &&& reg.app@ == Map::<Seq<char>, Credential>::empty()
            &&& reg.app.wf()
            &&& reg.state.cache.wf()
        },
        r is Err ==> r == Err::<Registration, VaultError>(VaultError::StorageUnavailable),
{
    let salt = generate_salt();
    let password_hash = match hash_password(device_pass, salt.as_str()) {
        Ok(h) => h,
        Err(_) => {
            return Err(VaultError::StorageUnavailable);
        },
    };
    let key_pair = KeyPair::new(SeedPhrase { phrase: seed_phrase.get_phrase() });
    let encrypted_sk = match encrypt_data(
        password_hash.cipher.as_str(),
        key_pair.private_key.as_slice(),
    ) {
        Ok(v) => v,
        Err(_) => {
            return Err(VaultError::StorageUnavailable);
        },
    };
    let state = PersistedState {
        password_hash,
        encrypted_sk,
        cache: CredentialsMap::new(),
    };
    let app = App { key_pair, credentials: CredentialsMap::new() };
    proof {
        assert(data_opens_to(
            guard_key(state, device_pass@),
            state.encrypted_sk,
            app.key_pair.private_key@,
        ));
        assert(unlockable(state, device_pass@));
    }
    Ok(Registration { seed_phrase, state, app })
}

} // verus!
