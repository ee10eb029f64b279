//! The bookkeeping of the sample-streaming endpoints: which peers are kept,
//! refreshed, connected again or forgotten as discovery beacons, audio
//! configurations and silences come and go.

use vstd::prelude::*;
use std::time::Instant;
use crate::net::AudioConfig;
use crate::socket::instant_now;

verus! {

/// How long, in microseconds, a server keeps a client it has not heard from.
pub const CLIENT_TIMEOUT_MICROS: u64 = 500_000;
/// How long, in microseconds, a client keeps a server it has not heard from.
pub const SERVER_TIMEOUT_MICROS: u64 = 4_000_000;
/// The capacity of the queue of configurations heard by a client.
pub const EVENT_QUEUE_CAPACITY: usize = 1024;

/// Whether a peer last heard from `elapsed_micros` microseconds ago is kept.
pub fn is_alive(elapsed_micros: u64, timeout_micros: u64) -> (r: bool)
    ensures
        r == (elapsed_micros < timeout_micros),
{
    elapsed_micros < timeout_micros
}

/// What a server does when a client's discovery beacon arrives (after
/// answering with its configuration).
#[derive(Clone, Copy, Debug, PartialEq, Eq, Structural)]
pub enum DiscoveryAction {
    /// The client is known: it was heard from now.
    Refresh,
    /// The client is new: the application decides whether to stream to it.
    Connect,
}

/// What a server does on a client's discovery beacon.
pub fn on_client_discovery(known: bool) -> (r: DiscoveryAction)
    ensures
        r == if known { DiscoveryAction::Refresh } else { DiscoveryAction::Connect },
{
    if known { DiscoveryAction::Refresh } else { DiscoveryAction::Connect }
}

/// What a client does when a server's configuration arrives.
#[derive(Clone, Copy, Debug, PartialEq, Eq, Structural)]
pub enum ConfigAction {
    /// The server is known with this configuration: it was heard from now.
    Refresh,
    /// The server is known with another configuration: the application
    /// decides whether to stream to it anew.
    Reconnect,
    /// The server is new: the application decides whether to stream to it.
    Connect,
}

/// What a client does on a server's configuration, given the configuration
/// it knows the server by, if any.
pub fn on_server_config(known: Option<AudioConfig>, config: AudioConfig) -> (r: ConfigAction)
    ensures
        r == config_action_spec(known, config),
{
    match known {
        None => ConfigAction::Connect,
        Some(old) => if old == config { ConfigAction::Refresh } else { ConfigAction::Reconnect },
    }
}

/// How the table of peers changes.
#[derive(Clone, Copy, Debug, PartialEq, Eq, Structural)]
pub enum TableChange {
    /// Nothing changes.
    Nothing,
    /// The peer's entry is refreshed.
    Refresh,
    /// A new entry is added.
    Insert,
    /// The peer's entry is replaced by a new one.
    Replace,
    /// The peer's entry is removed.
    Remove,
}

/// How the table changes once the application has accepted the peer or not
/// (`accepted` is only asked for connections).
pub fn table_change(action: ConfigAction, accepted: bool) -> (r: TableChange)
    ensures
        r == table_change_spec(action, accepted),
{
    match action {
        ConfigAction::Refresh => TableChange::Refresh,
        ConfigAction::Reconnect => if accepted { TableChange::Replace } else { TableChange::Remove },
        ConfigAction::Connect => if accepted { TableChange::Insert } else { TableChange::Nothing },
    }
}

/// What a client does on a server's configuration.
pub open spec fn config_action_spec(known: Option<AudioConfig>, config: AudioConfig) -> ConfigAction {
    match known {
        None => ConfigAction::Connect,
        Some(old) => if old == config { ConfigAction::Refresh } else { ConfigAction::Reconnect },
    }
}

/// A known server heard with the configuration it is known by is refreshed
/// whatever the application would say; heard with another, it is replaced
/// if the application accepts it again and removed otherwise. A new server
/// is added exactly when the application accepts it.
pub proof fn lemma_config_table_change(known: Option<AudioConfig>, config: AudioConfig, accepted: bool)
    ensures
        ({
            let c = table_change_spec(config_action_spec(known, config), accepted);
            &&& known == Some(config) ==> c == TableChange::Refresh
            &&& (known is Some && known != Some(config)) ==> c == if accepted { TableChange::Replace } else { TableChange::Remove }
            &&& known is None ==> c == if accepted { TableChange::Insert } else { TableChange::Nothing }
        }),
{
}

/// The table change, as a spec function.
pub open spec fn table_change_spec(action: ConfigAction, accepted: bool) -> TableChange {
    match action {
        ConfigAction::Refresh => TableChange::Refresh,
        ConfigAction::Reconnect => if accepted { TableChange::Replace } else { TableChange::Remove },
        ConfigAction::Connect => if accepted { TableChange::Insert } else { TableChange::Nothing },
    }
}

/// What a client keeps of a server it streams to.
pub struct ServerEntry<T> {
    pub config: AudioConfig,
    pub receiver: T,
    /// When the server was last heard from.
    pub timestamp: Instant,
    /// The index of the next sample to send.
    pub sample_idx: u64,
}

impl<T> ServerEntry<T> {
    /// A server heard from now, streamed to from its first sample.
    pub fn new(receiver: T, config: AudioConfig) -> (r: ServerEntry<T>)
        ensures
            r.config == config,
            r.receiver == receiver,
            r.sample_idx == 0,
    {
        ServerEntry { config, receiver, timestamp: instant_now(), sample_idx: 0 }
    }

    /// Counts `n` more samples sent.
    pub fn advance(&mut self, n: u64)
        requires
            old(self).sample_idx + n <= u64::MAX,
        ensures
            final(self).sample_idx == old(self).sample_idx + n,
            final(self).config == old(self).config,
    {
        self.sample_idx = self.sample_idx + n;
    }
}

} // verus!
