use discord_role_restore::server_state::{ping_timestamp, ServerState};
use std::sync::atomic::Ordering;

#[test]
fn new_state_has_no_ping() {
    let state = ServerState::new();
    assert_eq!(state.last_ping.load(Ordering::SeqCst), 0);
}

#[test]
fn ping_records_the_given_time() {
    let state = ServerState::new();
    let shared = state.clone();
    state.update_ping(1_700_000_123);
    assert_eq!(shared.last_ping.load(Ordering::SeqCst), 1_700_000_123);
    state.update_ping(-1);
    assert_eq!(shared.last_ping.load(Ordering::SeqCst), u64::MAX);
}

#[test]
fn timestamps_are_stored_as_unsigned() {
    assert_eq!(ping_timestamp(0), 0);
    assert_eq!(ping_timestamp(1_700_000_000), 1_700_000_000);
    assert_eq!(ping_timestamp(-1), u64::MAX);
}
