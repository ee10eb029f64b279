//! Messages sent by servers to connected clients.

use vstd::prelude::*;
use crate::message::{AudioMessageHeader, Error, IOState};

verus! {

/// Control messages sent from a server to a connected client.
#[derive(Clone, Copy, Debug, PartialEq, Eq)]
pub enum Control {
    /// The answer to a [`crate::message::client::Control::RequestIOStateChange`].
    IOStateChangeResult(IOState<Result<(), Error>, Result<(), Error>>),
}

/// All messages sent from a server to a connected client.
#[derive(Clone, Copy, Debug, PartialEq, Eq)]
pub enum Connected {
    Control(Control),
    /// Audio data, whose payload follows the header.
    Audio(AudioMessageHeader),
}

} // verus!
