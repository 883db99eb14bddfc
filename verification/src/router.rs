use std::collections::HashMap;
use vstd::prelude::*;

use crate::messages::{RequestId, INITIAL_REQUEST_ID};

verus! {

broadcast use vstd::std_specs::hash::group_hash_axioms;

/// Identifier of a connected long-lived channel. Zero is reserved as the
/// invalid, never-connected identifier.
pub type PortId = usize;

/// The lowest identifier a connection can receive.
pub const FIRST_PORT_ID: PortId = 1;

/// Errors of the router itself, always recoverable.
#[derive(Clone, Copy, Debug, PartialEq, Eq, Structural)]
pub enum PortError {
    /// The port identifier is unknown: already disconnected or never
    /// connected.
    NotConnected,
    /// A counter reached the end of its identifier space.
    IdsExhausted,
}

/// One long-lived channel: its handle and its own request-id counter,
/// independent of every other channel's.
pub struct PortContext<P> {
    pub port: P,
    pub last_request_id: RequestId,
}

impl<P> PortContext<P> {
    /// Wrap a freshly connected channel; its counter starts at the initial
    /// value.
    pub fn new(port: P) -> (r: PortContext<P>)
        ensures
            r.last_request_id == INITIAL_REQUEST_ID,
            r.port == port,
    {
        PortContext { port, last_request_id: INITIAL_REQUEST_ID }
    }

    /// Issue this channel's next request identifier: strictly above every
    /// one issued before on this channel, and never reused.
    pub fn next_request_id(&mut self) -> (r: Option<RequestId>)
        ensures
            final(self).port == old(self).port,
            old(self).last_request_id < RequestId::MAX ==> {
                &&& r == Some((old(self).last_request_id + 1) as RequestId)
                &&& final(self).last_request_id == old(self).last_request_id + 1
            },
            old(self).last_request_id == RequestId::MAX ==> r is None && *final(self) == *old(self),
            r matches Some(id) ==> id > old(self).last_request_id,
    {
        match crate::messages::next_request_id(self.last_request_id) {
            Some(id) => {
                self.last_request_id = id;
                Some(id)
            },
            None => None,
        }
    }
}

/// The registry of connected channels, keyed by monotonically assigned
/// port identifiers that are never reused while the registry lives.
pub struct ConnectedPorts<P> {
    pub last_id: PortId,
    pub ctx_by_id: HashMap<PortId, PortContext<P>>,
}

impl<P> ConnectedPorts<P> {
    /// Every live identifier was assigned in the past: at least the first
    /// identifier and at most the last one handed out.
    pub open spec fn wf(&self) -> bool {
        forall|k: PortId|
            self.ctx_by_id@.contains_key(k) ==> FIRST_PORT_ID <= k <= self.last_id
    }

    /// An empty registry; no identifier has been assigned yet.
    pub fn new() -> (r: ConnectedPorts<P>)
        ensures
            r.wf(),
            r.last_id == 0,
            r.ctx_by_id@ == Map::<PortId, PortContext<P>>::empty(),
    {
        ConnectedPorts { last_id: 0, ctx_by_id: HashMap::new() }
    }

    /// Register a channel under the next unused identifier, which is fresh:
    /// distinct from every identifier ever assigned. Degrades gracefully
    /// (returns nothing) if the identifier space is exhausted.
    pub fn connect(&mut self, port: P) -> (r: Option<PortId>)
        requires
            old(self).wf(),
        ensures
            final(self).wf(),
            old(self).last_id < PortId::MAX ==> {
                &&& r == Some((old(self).last_id + 1) as PortId)
                &&& !old(self).ctx_by_id@.contains_key((old(self).last_id + 1) as PortId)
                &&& final(self).last_id == old(self).last_id + 1
                &&& final(self).ctx_by_id@ == old(self).ctx_by_id@.insert(
                    (old(self).last_id + 1) as PortId,
                    PortContext { port, last_request_id: INITIAL_REQUEST_ID },
                )
            },
            old(self).last_id == PortId::MAX ==> r is None && final(self).ctx_by_id@ == old(
                self,
            ).ctx_by_id@ && final(self).last_id == old(self).last_id,
            r matches Some(id) ==> id > old(self).last_id && FIRST_PORT_ID <= id,
    {
        if self.last_id == PortId::MAX {
            return None;
        }
        let id = self.last_id + 1;
        self.last_id = id;
        let ctx = PortContext::new(port);
        self.ctx_by_id.insert(id, ctx);
        Some(id)
    }

    /// Release a channel and hand its handle back. Unknown identifiers are
    /// a no-op returning nothing, not an error, so a second disconnect is
    /// harmless.
    pub fn disconnect(&mut self, id: PortId) -> (r: Option<P>)
        requires
            old(self).wf(),
        ensures
            final(self).wf(),
            final(self).last_id == old(self).last_id,
            final(self).ctx_by_id@ == old(self).ctx_by_id@.remove(id),
            r is Some <==> old(self).ctx_by_id@.contains_key(id),
            r matches Some(p) ==> p == old(self).ctx_by_id@[id].port,
            !old(self).ctx_by_id@.contains_key(id) ==> final(self).ctx_by_id@ == old(
                self,
            ).ctx_by_id@,
    {
        let ghost before = self.ctx_by_id@;
        let r = match self.ctx_by_id.remove(&id) {
            Some(ctx) => Some(ctx.port),
            None => None,
        };
        proof {
            if !before.contains_key(id) {
                assert(before.remove(id) =~= before);
            }
        }
        r
    }

    /// A borrowed handle for posting a message on a channel; fails with
    /// `NotConnected` exactly when the identifier is unknown, a recoverable
    /// condition since disconnects race with in-flight sends.
    pub fn get_port(&self, id: PortId) -> (r: Result<&P, PortError>)
        ensures
            r is Ok <==> self.ctx_by_id@.contains_key(id),
            r matches Ok(p) ==> *p == self.ctx_by_id@[id].port,
            r is Err ==> r == Err::<&P, PortError>(PortError::NotConnected),
    {
        match self.ctx_by_id.get(&id) {
            Some(ctx) => Ok(&ctx.port),
            None => Err(PortError::NotConnected),
        }
    }

    /// Issue the next request identifier of one channel, leaving every
    /// other channel's counter untouched.
    pub fn next_request_id(&mut self, id: PortId) -> (r: Result<RequestId, PortError>)
        requires
            old(self).wf(),
        ensures
            final(self).wf(),
            final(self).last_id == old(self).last_id,
            !old(self).ctx_by_id@.contains_key(id) ==> r == Err::<RequestId, PortError>(
                PortError::NotConnected,
            ) && final(self).ctx_by_id@ == old(self).ctx_by_id@,
            old(self).ctx_by_id@.contains_key(id) && old(self).ctx_by_id@[id].last_request_id
                < RequestId::MAX ==> {
                &&& r == Ok::<RequestId, PortError>(
                    (old(self).ctx_by_id@[id].last_request_id + 1) as RequestId,
                )
                &&& final(self).ctx_by_id@ == old(self).ctx_by_id@.insert(
                    id,
                    PortContext {
                        port: old(self).ctx_by_id@[id].port,
                        last_request_id: (old(self).ctx_by_id@[id].last_request_id
                            + 1) as RequestId,
                    },
                )
            },
            old(self).ctx_by_id@.contains_key(id) && old(self).ctx_by_id@[id].last_request_id
                == RequestId::MAX ==> r == Err::<RequestId, PortError>(PortError::IdsExhausted)
                && final(self).ctx_by_id@ == old(self).ctx_by_id@,
            r matches Ok(rid) ==> old(self).ctx_by_id@.contains_key(id) && rid > old(
                self,
            ).ctx_by_id@[id].last_request_id,
    {
        let ghost before = self.ctx_by_id@;
        match self.ctx_by_id.remove(&id) {
            None => {
                proof {
                    assert(before.remove(id) =~= before);
                }
                Err(PortError::NotConnected)
            },
            Some(mut ctx) => {
                match ctx.next_request_id() {
                    Some(rid) => {
                        self.ctx_by_id.insert(id, ctx);
                        proof {
                            assert(self.ctx_by_id@ =~= before.insert(
                                id,
                                PortContext {
                                    port: before[id].port,
                                    last_request_id: (before[id].last_request_id
                                        + 1) as RequestId,
                                },
                            ));
                        }
                        Ok(rid)
                    },
                    None => {
                        self.ctx_by_id.insert(id, ctx);
                        proof {
                            assert(self.ctx_by_id@ =~= before);
                        }
                        Err(PortError::IdsExhausted)
                    },
                }
            },
        }
    }
}

} // verus!
