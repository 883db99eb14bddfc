use vstd::prelude::*;

verus! {

/// Correlation identifier carried by every request and response envelope.
pub type RequestId = u64;

/// The value a fresh counter starts from; the first issued identifier is
/// strictly above it.
pub const INITIAL_REQUEST_ID: RequestId = 0;

/// The next identifier after the last issued one: strictly increasing,
/// never reused, and refused (rather than wrapped) at the end of the
/// identifier space.
pub fn next_request_id(last: RequestId) -> (r: Option<RequestId>)
    ensures
        last < RequestId::MAX ==> r == Some((last + 1) as RequestId),
        last == RequestId::MAX ==> r is None,
        r matches Some(id) ==> id > last,
{
    if last < RequestId::MAX {
        Some(last + 1)
    } else {
        None
    }
}

/// What a client sends with a request.
#[derive(Clone, Copy, Debug, PartialEq, Eq, Structural)]
pub struct RequestHeader {
    pub client_id: RequestId,
}

/// What comes back: the client's own identifier and the handler-assigned
/// one.
#[derive(Clone, Copy, Debug, PartialEq, Eq, Structural)]
pub struct ResponseHeader {
    pub client_id: RequestId,
    pub request_id: RequestId,
}

impl RequestHeader {
    /// The response header answering this request under a handler-assigned
    /// identifier.
    pub fn into_response(self, request_id: RequestId) -> (r: ResponseHeader)
        ensures
            r.client_id == self.client_id,
            r.request_id == request_id,
    {
        ResponseHeader { client_id: self.client_id, request_id }
    }
}

/// A request envelope.
pub struct Request<P> {
    pub header: RequestHeader,
    pub payload: P,
}

/// A response envelope.
pub struct Response<P> {
    pub header: ResponseHeader,
    pub payload: P,
}

/// The one-shot application requests.
pub enum AppRequestPayload {
    GetStatus,
    Unlock { device_password: String },
    Login { seed_phrase: String, device_password: String },
    GetCredential { site: String, username: Option<String> },
    AddCredential { site: String, username: String, password: String },
}

/// The responses paired with the one-shot requests.
pub enum AppResponsePayload {
    Status { is_logged_in: bool },
    Auth { error: Option<String> },
    Credential { username: String, password: String },
}

/// The channel-scoped port requests.
pub enum PortRequestPayload {
    GetCredential { site: String },
}

/// The responses paired with the port requests.
pub enum PortResponsePayload {
    Credential { username: String, password: String },
}

} // verus!
