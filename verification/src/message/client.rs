//! Messages sent by clients to connected servers.

use vstd::prelude::*;
use crate::message::{AudioMessageHeader, IOState};

verus! {

/// Control messages sent from a client to a connected server.
#[derive(Clone, Copy, Debug, PartialEq, Eq)]
pub enum Control {
    /// Requests to start or stop IO: starting IO starts all input and output streams.
    RequestIOStateChange(IOState<(), ()>),
}

/// All messages sent from a client to a connected server.
#[derive(Clone, Copy, Debug, PartialEq, Eq)]
pub enum Connected {
    Control(Control),
    /// Audio data, whose payload follows the header.
    Audio(AudioMessageHeader),
}

} // verus!
