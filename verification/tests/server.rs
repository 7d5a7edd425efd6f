use puchi_sekai::config::default_ipc_socket_address;
use puchi_sekai::controller::{UiAction, WindowState};
use puchi_sekai::event::IPCEvent;
use puchi_sekai::server::{
    bind_preparation, client_connect_allowed, endpoint_file_path, server_step, RecvOutcome,
    ServerStep, TransportError,
};

#[test]
fn transport_failure_continues() {
    assert!(matches!(server_step(RecvOutcome::TransportFailure), ServerStep::Continue));
}

#[test]
fn invalid_text_continues() {
    assert!(matches!(server_step(RecvOutcome::InvalidText), ServerStep::Continue));
}

#[test]
fn undecodable_payload_continues() {
    let d = server_step(RecvOutcome::Payload { text: String::from("{not json at all") });
    assert!(matches!(d, ServerStep::Continue));
}

#[test]
fn good_payload_accepted() {
    let d = server_step(RecvOutcome::Payload { text: String::from("{\"type\":\"openModal\"}") });
    assert!(matches!(d, ServerStep::Accept { event: IPCEvent::OpenModal }));
}

#[test]
fn malformed_then_toggle_still_flips() {
    // A bad transaction never stops the loop: the next good one still works.
    let mut st = WindowState::initial();
    for outcome in [
        RecvOutcome::Payload { text: String::from("garbage") },
        RecvOutcome::TransportFailure,
        RecvOutcome::Payload { text: String::from("{\"type\":\"mainToggle\"}") },
    ] {
        if let ServerStep::Accept { event } = server_step(outcome) {
            st.apply_event(event);
        }
    }
    assert!(!st.primary_visible);
}

#[test]
fn endpoint_path_of_ipc_address() {
    let p = endpoint_file_path("ipc:///tmp/puchi-sekai");
    assert_eq!(p.as_deref(), Some("/tmp/puchi-sekai"));
}

#[test]
fn endpoint_path_of_other_scheme() {
    assert!(endpoint_file_path("tcp://127.0.0.1:5555").is_none());
}

#[test]
fn stale_endpoint_named_for_removal() {
    let plan = bind_preparation("ipc:///tmp/puchi-sekai");
    assert_eq!(plan.address, "ipc:///tmp/puchi-sekai");
    assert_eq!(plan.unlink_path.as_deref(), Some("/tmp/puchi-sekai"));
}

#[test]
fn non_path_endpoint_has_nothing_to_remove() {
    let plan = bind_preparation("tcp://127.0.0.1:5555");
    assert_eq!(plan.address, "tcp://127.0.0.1:5555");
    assert!(plan.unlink_path.is_none());
}

#[test]
fn default_address_is_path_backed() {
    let addr = default_ipc_socket_address();
    assert_eq!(addr, "ipc:///tmp/puchi-sekai");
    assert_eq!(endpoint_file_path(&addr).as_deref(), Some("/tmp/puchi-sekai"));
}

#[test]
fn client_fails_fast_on_missing_endpoint() {
    let r = client_connect_allowed("ipc:///tmp/puchi-sekai", false);
    assert!(matches!(r, Err(TransportError::MissingEndpoint)));
}

#[test]
fn client_connects_when_endpoint_exists() {
    assert!(client_connect_allowed("ipc:///tmp/puchi-sekai", true).is_ok());
}

#[test]
fn client_ignores_existence_for_other_schemes() {
    assert!(client_connect_allowed("tcp://127.0.0.1:5555", false).is_ok());
}
