use passphrasex::messages::{
    next_request_id, AppRequestPayload, AppResponsePayload, PortRequestPayload,
    PortResponsePayload, Request, RequestHeader, INITIAL_REQUEST_ID,
};
use passphrasex::router::{ConnectedPorts, PortContext, PortError, FIRST_PORT_ID};
use passphrasex::session::Session;

#[test]
fn request_ids_start_above_the_initial_value() {
    let next = next_request_id(INITIAL_REQUEST_ID).unwrap();
    assert!(next > INITIAL_REQUEST_ID);
    assert_eq!(next, 1);
    assert!(next_request_id(u64::MAX).is_none());
}

#[test]
fn port_context_counts_independently() {
    let mut a = PortContext::new("handle-a");
    let mut b = PortContext::new("handle-b");
    assert_eq!(a.next_request_id(), Some(1));
    assert_eq!(a.next_request_id(), Some(2));
    assert_eq!(b.next_request_id(), Some(1));
    assert_eq!(a.next_request_id(), Some(3));
    assert_eq!(a.port, "handle-a");
}

#[test]
fn sequential_connects_get_distinct_fresh_ids() {
    let mut ports: ConnectedPorts<u32> = ConnectedPorts::new();
    let first = ports.connect(10).unwrap();
    let second = ports.connect(20).unwrap();
    assert_ne!(first, second);
    assert!(first >= FIRST_PORT_ID);
    assert!(second > first);
    assert_eq!(*ports.get_port(first).unwrap(), 10);
    assert_eq!(*ports.get_port(second).unwrap(), 20);
}

#[test]
fn per_port_request_ids_are_independent_and_increasing() {
    let mut ports: ConnectedPorts<u32> = ConnectedPorts::new();
    let a = ports.connect(10).unwrap();
    let b = ports.connect(20).unwrap();
    assert_eq!(ports.next_request_id(a), Ok(1));
    assert_eq!(ports.next_request_id(a), Ok(2));
    assert_eq!(ports.next_request_id(b), Ok(1));
    assert_eq!(ports.next_request_id(a), Ok(3));
    assert_eq!(ports.next_request_id(b), Ok(2));
}

#[test]
fn disconnect_releases_and_is_idempotent() {
    let mut ports: ConnectedPorts<u32> = ConnectedPorts::new();
    let a = ports.connect(10).unwrap();
    assert_eq!(ports.disconnect(999), None);
    assert_eq!(ports.disconnect(a), Some(10));
    assert_eq!(ports.disconnect(a), None);
    assert_eq!(ports.get_port(a), Err(PortError::NotConnected));
    assert_eq!(ports.next_request_id(a), Err(PortError::NotConnected));
}

#[test]
fn ids_are_not_reused_after_disconnect() {
    let mut ports: ConnectedPorts<u32> = ConnectedPorts::new();
    let a = ports.connect(10).unwrap();
    ports.disconnect(a);
    let b = ports.connect(20).unwrap();
    assert_ne!(a, b);
}

#[test]
fn session_reports_status_from_storage() {
    let mut session: Session<u32> = Session::new();
    let mut storage = None;
    let request = Request {
        header: RequestHeader { client_id: 7 },
        payload: AppRequestPayload::GetStatus,
    };
    let response = session.handle_app_request(&mut storage, 41, request).unwrap();
    assert_eq!(response.header.request_id, 41);
    assert_eq!(response.header.client_id, 7);
    match response.payload {
        AppResponsePayload::Status { is_logged_in } => assert!(!is_logged_in),
        _ => panic!("expected a status response"),
    }
}

#[test]
fn session_login_persists_state_and_unlocks() {
    let mut session: Session<u32> = Session::new();
    let mut storage = None;
    let login = Request {
        header: RequestHeader { client_id: 1 },
        payload: AppRequestPayload::Login {
            seed_phrase: "abandon abandon abandon abandon abandon abandon abandon abandon abandon abandon abandon abandon abandon abandon abandon abandon abandon abandon abandon abandon abandon abandon abandon art".to_string(),
            device_password: "hunter2".to_string(),
        },
    };
    let response = session.handle_app_request(&mut storage, 1, login).unwrap();
    match response.payload {
        AppResponsePayload::Auth { error } => assert!(error.is_none()),
        _ => panic!("expected an auth response"),
    }
    assert!(storage.is_some());
    assert!(session.vault.is_some());

    // A fresh session unlocks from the persisted state.
    let mut relocked: Session<u32> = Session::new();
    let unlock = Request {
        header: RequestHeader { client_id: 2 },
        payload: AppRequestPayload::Unlock { device_password: "hunter2".to_string() },
    };
    let response = relocked.handle_app_request(&mut storage, 2, unlock).unwrap();
    match response.payload {
        AppResponsePayload::Auth { error } => assert!(error.is_none()),
        _ => panic!("expected an auth response"),
    }
    assert!(relocked.vault.is_some());

    // The wrong password is reported as exactly that.
    let mut third: Session<u32> = Session::new();
    let bad = Request {
        header: RequestHeader { client_id: 3 },
        payload: AppRequestPayload::Unlock { device_password: "wrong".to_string() },
    };
    let response = third.handle_app_request(&mut storage, 3, bad).unwrap();
    match response.payload {
        AppResponsePayload::Auth { error } => {
            assert_eq!(error.unwrap(), "incorrect device password")
        }
        _ => panic!("expected an auth response"),
    }
    assert!(third.vault.is_none());
}

#[test]
fn session_login_rejects_invalid_phrase() {
    let mut session: Session<u32> = Session::new();
    let mut storage = None;
    let login = Request {
        header: RequestHeader { client_id: 1 },
        payload: AppRequestPayload::Login {
            seed_phrase: "garbage".to_string(),
            device_password: "hunter2".to_string(),
        },
    };
    let response = session.handle_app_request(&mut storage, 1, login).unwrap();
    match response.payload {
        AppResponsePayload::Auth { error } => {
            assert_eq!(error.unwrap(), "invalid seed phrase")
        }
        _ => panic!("expected an auth response"),
    }
    assert!(storage.is_none());
    assert!(session.vault.is_none());
}

#[test]
fn port_request_serves_a_cached_credential() {
    let mut session: Session<u32> = Session::new();
    let reg = passphrasex::vault::register("hunter2").unwrap();
    let mut app = reg.app;
    let cred = app.add("example.com", "alice", "s3cret").unwrap();
    app.add_commit(cred, Ok(())).unwrap();
    session.vault = Some(app);

    let request = Request {
        header: RequestHeader { client_id: 9 },
        payload: PortRequestPayload::GetCredential { site: "example.com".to_string() },
    };
    let response = session.handle_port_request(1, 5, request).unwrap();
    assert_eq!(response.header.request_id, 5);
    match response.payload {
        PortResponsePayload::Credential { username, password } => {
            assert_eq!(username, "alice");
            assert_eq!(password, "s3cret");
        }
    }

    // An unknown site yields no response at all: the reply is dropped.
    let miss = Request {
        header: RequestHeader { client_id: 9 },
        payload: PortRequestPayload::GetCredential { site: "unknown.net".to_string() },
    };
    assert!(session.handle_port_request(1, 6, miss).is_none());
}
