use vstd::prelude::*;

use crate::asymmetric::opens_to;
use crate::errors::VaultError;
use crate::messages::{AppRequestPayload, AppResponsePayload, PortRequestPayload,
    PortResponsePayload, Request, RequestId, Response, INITIAL_REQUEST_ID};
use crate::model::Credential;
use crate::router::{ConnectedPorts, PortError, PortId};
use crate::vault::{auth_device, unlockable, App, PersistedState};

verus! {

/// The long-running background session: a global one-shot request counter,
/// the registry of connected ports, and the vault once it has been
/// unlocked. One session owns the key pair and the cache exclusively.
pub struct Session<P> {
    pub last_request_id: RequestId,
    pub connected_ports: ConnectedPorts<P>,
    pub vault: Option<App>,
}

impl<P> Session<P> {
    /// The registry is well formed, and so is the vault once present.
    pub open spec fn wf(&self) -> bool {
        &&& self.connected_ports.wf()
        &&& (self.vault matches Some(app) ==> app.wf())
    }

    /// A locked session with no connections.
    pub fn new() -> (r: Session<P>)
        ensures
            r.wf(),
            r.vault is None,
            r.last_request_id == INITIAL_REQUEST_ID,
            r.connected_ports.ctx_by_id@ == Map::<PortId, crate::router::PortContext<P>>::empty(),
    {
        Session {
            last_request_id: INITIAL_REQUEST_ID,
            connected_ports: ConnectedPorts::new(),
            vault: None,
        }
    }

    /// Issue the next one-shot request identifier, separate from every
    /// channel's own counter.
    pub fn next_request_id(&mut self) -> (r: Option<RequestId>)
        requires
            old(self).wf(),
        ensures
            final(self).wf(),
            final(self).vault == old(self).vault,
            final(self).connected_ports.ctx_by_id@ == old(self).connected_ports.ctx_by_id@,
            old(self).last_request_id < RequestId::MAX ==> r == Some(
                (old(self).last_request_id + 1) as RequestId,
            ) && final(self).last_request_id == old(self).last_request_id + 1,
            r matches Some(id) ==> id > old(self).last_request_id,
    {
        match crate::messages::next_request_id(self.last_request_id) {
            Some(id) => {
                self.last_request_id = id;
                Some(id)
            },
            None => None,
        }
    }

    /// Register a connected channel.
    pub fn connect_port(&mut self, port: P) -> (r: Option<PortId>)
        requires
            old(self).wf(),
        ensures
            final(self).wf(),
            final(self).vault == old(self).vault,
            r matches Some(id) ==> id > old(self).connected_ports.last_id
                && final(self).connected_ports.ctx_by_id@.contains_key(id),
    {
        self.connected_ports.connect(port)
    }

    /// Release a channel; unknown identifiers are a harmless no-op.
    pub fn disconnect_port(&mut self, port_id: PortId) -> (r: Option<P>)
        requires
            old(self).wf(),
        ensures
            final(self).wf(),
            final(self).vault == old(self).vault,
            final(self).connected_ports.ctx_by_id@ == old(
                self,
            ).connected_ports.ctx_by_id@.remove(port_id),
            r is Some <==> old(self).connected_ports.ctx_by_id@.contains_key(port_id),
    {
        self.connected_ports.disconnect(port_id)
    }

    /// Issue the next request identifier of one channel.
    pub fn next_port_request_id(&mut self, port_id: PortId) -> (r: Result<RequestId, PortError>)
        requires
            old(self).wf(),
        ensures
            final(self).wf(),
            final(self).vault == old(self).vault,
            !old(self).connected_ports.ctx_by_id@.contains_key(port_id) ==> r == Err::<
                RequestId,
                PortError,
            >(PortError::NotConnected),
            r matches Ok(rid) ==> old(self).connected_ports.ctx_by_id@.contains_key(port_id)
                && rid > old(self).connected_ports.ctx_by_id@[port_id].last_request_id,
    {
        self.connected_ports.next_request_id(port_id)
    }

    /// Whether an identity has ever been persisted on this device.
    pub fn get_status(&self, storage: &Option<PersistedState>) -> (r: bool)
        ensures
            r == (storage is Some),
    {
        storage.is_some()
    }

    /// Unlock the vault from the persisted state with the device password.
    pub fn unlock(&mut self, storage: &Option<PersistedState>, device_password: &str) -> (r: Result<
        (),
        VaultError,
    >)
        requires
            old(self).wf(),
            storage matches Some(state) ==> state.cache.wf(),
        ensures
            final(self).wf(),
            final(self).connected_ports.ctx_by_id@ == old(self).connected_ports.ctx_by_id@,
            storage is None ==> r == Err::<(), VaultError>(VaultError::StorageUnavailable)
                && final(self).vault == old(self).vault,
            r is Ok ==> final(self).vault is Some,
            storage matches Some(state) ==> {
                &&& (r is Ok ==> state.password_hash.cipher@ == crate::symmetric::hashed(
                    device_password@,
                    state.password_hash.nonce@,
                ))
                &&& (unlockable(*state, device_password@) ==> (r is Ok || r == Err::<
                    (),
                    VaultError,
                >(VaultError::StorageUnavailable)))
                &&& (crate::symmetric::valid_salt(state.password_hash.nonce@)
                    && state.password_hash.cipher@ != crate::symmetric::hashed(
                    device_password@,
                    state.password_hash.nonce@,
                ) ==> (r == Err::<(), VaultError>(VaultError::IncorrectDevicePassword) || r
                    == Err::<(), VaultError>(VaultError::StorageUnavailable)))
                &&& (r is Err ==> final(self).vault == old(self).vault)
            },
    {
        match storage {
            None => Err(VaultError::StorageUnavailable),
            Some(state) => {
                match App::new(device_password, state) {
                    Ok(app) => {
                        self.vault = Some(app);
                        Ok(())
                    },
                    Err(e) => Err(e),
                }
            },
        }
    }

    /// Recover the identity from a seed phrase, wrap it under the device
    /// password, unlock the session, and hand back the state to persist.
    pub fn login(&mut self, seed_phrase: &str, device_password: &str) -> (r: Result<
        PersistedState,
        VaultError,
    >)
        requires
            old(self).wf(),
        ensures
            final(self).wf(),
            final(self).connected_ports.ctx_by_id@ == old(self).connected_ports.ctx_by_id@,
            r matches Ok(state) ==> {
                &&& unlockable(state, device_password@)
                &&& state.cache.wf()
                &&& state.cache@ == Map::<Seq<char>, Credential>::empty()
                &&& final(self).vault is Some
            },
            r == Err::<PersistedState, VaultError>(VaultError::InvalidSeedPhrase)
                <==> !crate::asymmetric::phrase_valid(seed_phrase@),
            r is Err ==> (r == Err::<PersistedState, VaultError>(VaultError::InvalidSeedPhrase)
                || r == Err::<PersistedState, VaultError>(VaultError::StorageUnavailable)),
            r is Err ==> final(self).vault == old(self).vault,
    {
        match auth_device(seed_phrase, device_password) {
            Ok(reg) => {
                self.vault = Some(reg.app);
                Ok(reg.state)
            },
            Err(e) => Err(e),
        }
    }

    /// The first credential cached for a site, decrypted; nothing when the
    /// session is locked, the site has no cached credential, or decryption
    /// fails. An unlocked vault whose cache holds a decryptable credential
    /// for the site owes an answer.
    pub fn get_credential(&self, site: &str) -> (r: Option<(String, String)>)
        requires
            self.wf(),
        ensures
            r matches Some(up) ==> (self.vault matches Some(app) && exists|k: Seq<char>|
                #[trigger] app@.contains_key(k) && app@[k].site@ == site@ && opens_to(
                    app.key_pair,
                    app@[k].username,
                    up.0@,
                ) && opens_to(app.key_pair, app@[k].password, up.1@)),
            (self.vault matches Some(app) && (exists|k: Seq<char>|
                #[trigger] app@.contains_key(k) && app@[k].site@ == site@)
                && app.site_decryptable(site@)) ==> r is Some,
    {
        let app = match &self.vault {
            Some(a) => a,
            None => {
                return None;
            },
        };
        let found = match app.get(site, None) {
            Ok(ps) => ps,
            Err(_) => {
                return None;
            },
        };
        if found.len() == 0 {
            proof {
                if exists|k: Seq<char>| #[trigger] app@.contains_key(k) && app@[k].site@
                    == site@ {
                    let k = choose|k: Seq<char>|
                        #[trigger] app@.contains_key(k) && app@[k].site@ == site@;
                    assert(exists|j: int|
                        0 <= j < found@.len() && opens_to(
                            app.key_pair,
                            app@[k].username,
                            (#[trigger] found@[j]).username@,
                        ) && opens_to(app.key_pair, app@[k].password, found@[j].password@));
                }
            }
            return None;
        }
        let first = &found[0];
        Some((first.username.clone(), first.password.clone()))
    }

    /// Handle one one-shot application request against the session and the
    /// persisted storage, handed in and out as plain state: reading and
    /// writing the actual storage, like delivering the response, is the
    /// embedder's concern. Exactly `Login` writes storage, and only on
    /// success.
    pub fn handle_app_request(
        &mut self,
        storage: &mut Option<PersistedState>,
        request_id: RequestId,
        request: Request<AppRequestPayload>,
    ) -> (r: Option<Response<AppResponsePayload>>)
        requires
            old(self).wf(),
            *old(storage) matches Some(state) ==> state.cache.wf(),
        ensures
            final(self).wf(),
            r matches Some(resp) ==> resp.header.request_id == request_id
                && resp.header.client_id == request.header.client_id,
            (match request.payload {
                AppRequestPayload::GetStatus => {
                    &&& *final(storage) == *old(storage)
                    &&& final(self).vault == old(self).vault
                    &&& (r matches Some(resp) && resp.payload matches
                        AppResponsePayload::Status { is_logged_in } && is_logged_in == (*old(
                        storage,
                    ) is Some))
                },
                AppRequestPayload::Unlock { device_password } => {
                    &&& *final(storage) == *old(storage)
                    &&& (r matches Some(resp) && resp.payload matches AppResponsePayload::Auth {
                        error,
                    } && (error is None ==> final(self).vault is Some) && (error is Some
                        ==> final(self).vault == old(self).vault))
                },
                AppRequestPayload::Login { seed_phrase, device_password } => {
                    &&& (r matches Some(resp) && resp.payload matches AppResponsePayload::Auth {
                        error,
                    } && (error is None ==> (final(self).vault is Some && (*final(storage) matches
                        Some(st) && unlockable(st, device_password@)))) && (error is Some
                        ==> *final(storage) == *old(storage)))
                },
                AppRequestPayload::GetCredential { site, username } => {
                    &&& *final(storage) == *old(storage)
                    &&& final(self).vault == old(self).vault
                    &&& (r matches Some(resp) ==> (resp.payload matches
                        AppResponsePayload::Credential { username: u, password: p } && (old(
                        self,
                    ).vault matches Some(app) && exists|k: Seq<char>|
                        #[trigger] app@.contains_key(k) && app@[k].site@ == site@ && opens_to(
                            app.key_pair,
                            app@[k].username,
                            u@,
                        ) && opens_to(app.key_pair, app@[k].password, p@))))
                    &&& ((old(self).vault matches Some(app) && (exists|k: Seq<char>|
                        #[trigger] app@.contains_key(k) && app@[k].site@ == site@)
                        && app.site_decryptable(site@)) ==> r is Some)
                },
                AppRequestPayload::AddCredential { site, username, password } => {
                    &&& *final(storage) == *old(storage)
                    &&& final(self).vault == old(self).vault
                    &&& (r matches Some(resp) && (resp.payload matches
                        AppResponsePayload::Credential { username: u, password: p } && u@
                        == username@ && p@ == password@))
                },
            }),
    {
        let header = request.header;
        match request.payload {
            AppRequestPayload::GetStatus => {
                let is_logged_in = self.get_status(storage);
                Some(
                    Response {
                        header: header.into_response(request_id),
                        payload: AppResponsePayload::Status { is_logged_in },
                    },
                )
            },
            AppRequestPayload::Unlock { device_password } => {
                let error = match self.unlock(storage, device_password.as_str()) {
                    Ok(_) => None,
                    Err(e) => Some(e.message()),
                };
                Some(
                    Response {
                        header: header.into_response(request_id),
                        payload: AppResponsePayload::Auth { error },
                    },
                )
            },
            AppRequestPayload::Login { seed_phrase, device_password } => {
                let error = match self.login(seed_phrase.as_str(), device_password.as_str()) {
                    Ok(state) => {
                        *storage = Some(state);
                        None
                    },
                    Err(e) => Some(e.message()),
                };
                Some(
                    Response {
                        header: header.into_response(request_id),
                        payload: AppResponsePayload::Auth { error },
                    },
                )
            },
            AppRequestPayload::GetCredential { site, username: _username } => {
                match self.get_credential(site.as_str()) {
                    Some((username, password)) => Some(
                        Response {
                            header: header.into_response(request_id),
                            payload: AppResponsePayload::Credential { username, password },
                        },
                    ),
                    None => None,
                }
            },
            AppRequestPayload::AddCredential { site: _site, username, password } => {
                Some(
                    Response {
                        header: header.into_response(request_id),
                        payload: AppResponsePayload::Credential { username, password },
                    },
                )
            },
        }
    }

    /// Handle one channel-scoped request. A response that cannot be built
    /// (locked session, unknown site, failed decryption) is dropped, not an
    /// error: the channel may already be disconnecting.
    pub fn handle_port_request(
        &self,
        _port_id: PortId,
        request_id: RequestId,
        request: Request<PortRequestPayload>,
    ) -> (r: Option<Response<PortResponsePayload>>)
        requires
            self.wf(),
        ensures
            r matches Some(resp) ==> resp.header.request_id == request_id
                && resp.header.client_id == request.header.client_id,
            (match request.payload {
                PortRequestPayload::GetCredential { site } => {
                    &&& (r matches Some(resp) ==> (resp.payload matches
                        PortResponsePayload::Credential { username, password } && (self.vault
                        matches Some(app) && exists|k: Seq<char>|
                        #[trigger] app@.contains_key(k) && app@[k].site@ == site@ && opens_to(
                            app.key_pair,
                            app@[k].username,
                            username@,
                        ) && opens_to(app.key_pair, app@[k].password, password@))))
                    &&& ((self.vault matches Some(app) && (exists|k: Seq<char>|
                        #[trigger] app@.contains_key(k) && app@[k].site@ == site@)
                        && app.site_decryptable(site@)) ==> r is Some)
                },
            }),
    {
        let header = request.header;
        match request.payload {
            PortRequestPayload::GetCredential { site } => {
                match self.get_credential(site.as_str()) {
                    Some((username, password)) => Some(
                        Response {
                            header: header.into_response(request_id),
                            payload: PortResponsePayload::Credential { username, password },
                        },
                    ),
                    None => None,
                }
            },
        }
    }
}

} // verus!
