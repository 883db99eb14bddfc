use vstd::prelude::*;

verus! {

/// The universal wire and storage representation of an encrypted field:
/// both parts are URL-safe base64 text.
#[derive(Clone, Debug)]
pub struct EncryptedValue {
    pub cipher: String,
    pub nonce: String,
}

impl EncryptedValue {
    /// An equal copy; spelled out so that verified callers keep the value's
    /// contents across the copy.
    pub fn duplicate(&self) -> (r: EncryptedValue)
        ensures
            r == *self,
    {
        EncryptedValue { cipher: self.cipher.clone(), nonce: self.nonce.clone() }
    }
}

/// The persisted record of the device password: the hash rendered as text in
/// `cipher`, and the salt it was computed with in `nonce`.
#[derive(Clone, Debug)]
pub struct PasswordHash {
    pub cipher: String,
    pub nonce: String,
}

/// One stored credential: a deterministic identifier, the owning identity's
/// public key, the site in plain text, and the two encrypted fields.
#[derive(Clone, Debug)]
pub struct Credential {
    pub id: String,
    pub user_id: String,
    pub site: String,
    pub username: EncryptedValue,
    pub password: EncryptedValue,
}

impl Credential {
    /// An equal copy, field by field.
    pub fn duplicate(&self) -> (r: Credential)
        ensures
            r == *self,
    {
        Credential {
            id: self.id.clone(),
            user_id: self.user_id.clone(),
            site: self.site.clone(),
            username: self.username.duplicate(),
            password: self.password.duplicate(),
        }
    }
}

/// A decrypted credential as handed back to the caller.
#[derive(Clone, Debug)]
pub struct Password {
    pub site: String,
    pub username: String,
    pub password: String,
}

} // verus!
