use vstd::prelude::*;

verus! {

/// Everything that can go wrong inside the vault engine.
///
/// Cryptographic and identity errors always propagate to the caller;
/// remote-store errors abort writes but reads may fall back to the local
/// cache; router errors are recoverable.
#[derive(Clone, Copy, Debug, PartialEq, Eq, Structural)]
pub enum VaultError {
    /// The mnemonic sentence does not parse against the word list.
    InvalidSeedPhrase,
    /// The device password does not match the persisted hash.
    IncorrectDevicePassword,
    /// A persisted record is missing, malformed, or does not decrypt.
    CorruptOrWrongCredentials,
    /// A local record could not be read or produced at all.
    StorageUnavailable,
    /// An encrypted field failed authentication on decryption.
    DecryptionFailed,
    /// A signed token failed verification.
    InvalidSignature,
    /// No credential with the derived identifier exists.
    CredentialNotFound,
    /// A credential with the derived identifier already exists.
    CredentialAlreadyExists,
    /// The remote credential store could not be reached or refused the call.
    RemoteUnavailable,
    /// The port identifier is unknown to the router.
    NotConnected,
}

impl VaultError {
    /// A distinct, user-actionable description of each failure.
    pub fn message(&self) -> (r: String)
        ensures
            self is InvalidSeedPhrase ==> r@ == "invalid seed phrase"@,
            self is IncorrectDevicePassword ==> r@ == "incorrect device password"@,
            self is CorruptOrWrongCredentials ==> r@ == "stored credentials are corrupt or from another identity"@,
            self is StorageUnavailable ==> r@ == "local storage unavailable"@,
            self is DecryptionFailed ==> r@ == "decryption failed"@,
            self is InvalidSignature ==> r@ == "invalid signature"@,
            self is CredentialNotFound ==> r@ == "credential not found"@,
            self is CredentialAlreadyExists ==> r@ == "credential already exists"@,
            self is RemoteUnavailable ==> r@ == "remote store unavailable"@,
            self is NotConnected ==> r@ == "port not connected"@,
    {
        match self {
            VaultError::InvalidSeedPhrase => "invalid seed phrase".to_owned(),
            VaultError::IncorrectDevicePassword => "incorrect device password".to_owned(),
            VaultError::CorruptOrWrongCredentials => {
                "stored credentials are corrupt or from another identity".to_owned()
            },
            VaultError::StorageUnavailable => "local storage unavailable".to_owned(),
            VaultError::DecryptionFailed => "decryption failed".to_owned(),
            VaultError::InvalidSignature => "invalid signature".to_owned(),
            VaultError::CredentialNotFound => "credential not found".to_owned(),
            VaultError::CredentialAlreadyExists => "credential already exists".to_owned(),
            VaultError::RemoteUnavailable => "remote store unavailable".to_owned(),
            VaultError::NotConnected => "port not connected".to_owned(),
        }
    }
}

/// Outcome reported by the caller for a remote-store interaction.
#[derive(Clone, Copy, Debug, PartialEq, Eq, Structural)]
pub enum RemoteError {
    /// The store could not be reached or failed the request.
    Unavailable,
}

} // verus!
