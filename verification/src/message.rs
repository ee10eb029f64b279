//! All message types sent between endpoints.

use vstd::prelude::*;
use crate::format::StreamFormats;

pub mod client;
pub mod server;

verus! {

/// The header of an audio message: its payload holds `n_bytes` bytes of packed,
/// interleaved, uncompressed audio, starting at byte `byte_idx` of the stream.
///
/// A `byte_idx` greater than the previous message's `next_byte_idx` means data
/// was lost; a smaller one (reordering) means the message is to be discarded.
#[derive(Clone, Copy, Debug, PartialEq, Eq, Structural)]
pub struct AudioStreamMessageHeader {
    pub byte_idx: u64,
    pub n_bytes: u32,
}

impl AudioStreamMessageHeader {
    /// The byte index that the next message of the stream is expected to carry.
    pub fn next_byte_idx(&self) -> (r: u64)
        requires
            self.byte_idx + self.n_bytes <= u64::MAX,
        ensures
            r == self.byte_idx + self.n_bytes,
    {
        self.byte_idx + self.n_bytes as u64
    }
}

/// An audio message header tagged with the index of the stream it belongs to.
///
/// Clients give the index of one of the server's output streams; servers the
/// index of one of their input streams.
#[derive(Clone, Copy, Debug, PartialEq, Eq, Structural)]
pub struct AudioMessageHeader {
    pub stream_idx: u32,
    pub stream_msg: AudioStreamMessageHeader,
}

/// The state of audio IO between a client and a server.
#[derive(Clone, Copy, Debug, PartialEq, Eq, Structural)]
pub enum IOState<T, U> {
    Start(T),
    Stop(U),
}

/// A generic error message.
#[derive(Clone, Copy, Debug, PartialEq, Eq, Structural)]
pub enum Error {
    Failure,
    /// The operation will never succeed; the requester should not retry.
    Refusal,
}

/// All messages that clients send and servers receive.
#[derive(Clone, Copy, Debug, PartialEq, Eq)]
pub enum Client {
    /// A discovery beacon, usually sent to a broadcast address.
    Discovery,
    /// The answer to a [`Server::Connect`] message.
    ConnectionResult(Result<(), Error>),
    /// Messages sent to an already connected server.
    Connected(client::Connected),
    /// The client leaves the connection.
    Disconnect,
}

/// All messages that servers send and clients receive.
#[derive(Clone, Debug)]
pub enum Server {
    /// Sent to connect to a client, advertising the server's stream formats.
    Connect(StreamFormats),
    /// Messages sent to an already connected client.
    Connected(server::Connected),
    /// The server leaves the connection.
    Disconnect,
}

impl Server {
    /// Two server messages carry the same information (formats compared by content).
    pub open spec fn same(self, other: Server) -> bool {
        match (self, other) {
            (Server::Connect(a), Server::Connect(b)) => a.inputs@ == b.inputs@ && a.outputs@ == b.outputs@,
            (Server::Connected(a), Server::Connected(b)) => a == b,
            (Server::Disconnect, Server::Disconnect) => true,
            _ => false,
        }
    }

    /// Every format the message carries is valid.
    pub open spec fn wf(self) -> bool {
        self matches Server::Connect(f) ==> f.wf()
    }
}

} // verus!
