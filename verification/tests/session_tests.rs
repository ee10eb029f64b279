use syfala::net::AudioConfig;
use syfala::session::{
    is_alive, on_client_discovery, on_server_config, table_change, ConfigAction, DiscoveryAction, ServerEntry,
    TableChange, CLIENT_TIMEOUT_MICROS, SERVER_TIMEOUT_MICROS,
};

#[test]
fn peer_timeouts() {
    assert!(is_alive(499_999, CLIENT_TIMEOUT_MICROS));
    assert!(!is_alive(500_000, CLIENT_TIMEOUT_MICROS));
    assert!(is_alive(3_999_999, SERVER_TIMEOUT_MICROS));
    assert!(!is_alive(4_000_000, SERVER_TIMEOUT_MICROS));
}

#[test]
fn discovery() {
    assert_eq!(on_client_discovery(true), DiscoveryAction::Refresh);
    assert_eq!(on_client_discovery(false), DiscoveryAction::Connect);
}

#[test]
fn server_configurations() {
    let a = AudioConfig::new(2, 64);
    let b = AudioConfig::new(2, 128);
    assert_eq!(on_server_config(None, a), ConfigAction::Connect);
    assert_eq!(on_server_config(Some(a), a), ConfigAction::Refresh);
    assert_eq!(on_server_config(Some(a), b), ConfigAction::Reconnect);
    assert_eq!(table_change(ConfigAction::Refresh, false), TableChange::Refresh);
    assert_eq!(table_change(ConfigAction::Reconnect, true), TableChange::Replace);
    assert_eq!(table_change(ConfigAction::Reconnect, false), TableChange::Remove);
    assert_eq!(table_change(ConfigAction::Connect, true), TableChange::Insert);
    assert_eq!(table_change(ConfigAction::Connect, false), TableChange::Nothing);
}

#[test]
fn server_entries() {
    let mut e = ServerEntry::new("receiver", AudioConfig::new(1, 32));
    assert_eq!(e.sample_idx, 0);
    e.advance(32);
    e.advance(32);
    assert_eq!(e.sample_idx, 64);
    assert_eq!(e.config.chunk_size_samples(), 32);
}
