//! Flat wire representations of protocol messages and their conversions.
//!
//! Nested message enums are flattened so that each meaningful message is a
//! single discriminant on the wire, which keeps encoded messages small.

use vstd::prelude::*;
use vstd::std_specs::convert::FromSpecImpl;
use crate::format::StreamFormats;
use crate::message::{AudioMessageHeader, AudioStreamMessageHeader, Client, Error, IOState, Server};
use crate::message::client;
use crate::message::server;

verus! {

/// Flattened wire representation of client-to-server messages.
#[derive(Clone, Copy, Debug, PartialEq, Eq, Structural)]
pub enum ClientMessageFlat {
    Discovery,
    ConnectionSuccess,
    ConnectionFailed,
    ConnectionRefused,
    StartIO,
    StopIO,
    AudioHeader { stream_idx: u32, byte_idx: u64, n_bytes: u32 },
    Disconnect,
}

/// Flattened wire representation of server-to-client messages.
#[derive(Clone, Debug)]
pub enum ServerMessageFlat {
    Connect(StreamFormats),
    StartIOFailed,
    StartIORefused,
    StartIOSuccess,
    StopIOFailed,
    StopIORefused,
    StopIOSuccess,
    AudioHeader { stream_idx: u32, byte_idx: u64, n_bytes: u32 },
    Disconnect,
}

/// The flat form of a client message.
pub open spec fn client_to_flat(m: Client) -> ClientMessageFlat {
    match m {
        Client::Discovery => ClientMessageFlat::Discovery,
        Client::Connected(client::Connected::Control(
            client::Control::RequestIOStateChange(IOState::Start(_)),
        )) => ClientMessageFlat::StartIO,
        Client::Connected(client::Connected::Control(
            client::Control::RequestIOStateChange(IOState::Stop(_)),
        )) => ClientMessageFlat::StopIO,
        Client::Connected(client::Connected::Audio(h)) => ClientMessageFlat::AudioHeader {
            stream_idx: h.stream_idx,
            byte_idx: h.stream_msg.byte_idx,
            n_bytes: h.stream_msg.n_bytes,
        },
        Client::ConnectionResult(Ok(_)) => ClientMessageFlat::ConnectionSuccess,
        Client::ConnectionResult(Err(Error::Failure)) => ClientMessageFlat::ConnectionFailed,
        Client::ConnectionResult(Err(Error::Refusal)) => ClientMessageFlat::ConnectionRefused,
        Client::Disconnect => ClientMessageFlat::Disconnect,
    }
}

/// The client message that a flat form stands for.
pub open spec fn client_from_flat(f: ClientMessageFlat) -> Client {
    match f {
        ClientMessageFlat::Discovery => Client::Discovery,
        ClientMessageFlat::StartIO => Client::Connected(
            client::Connected::Control(client::Control::RequestIOStateChange(IOState::Start(()))),
        ),
        ClientMessageFlat::StopIO => Client::Connected(
            client::Connected::Control(client::Control::RequestIOStateChange(IOState::Stop(()))),
        ),
        ClientMessageFlat::AudioHeader { stream_idx, byte_idx, n_bytes } => Client::Connected(
            client::Connected::Audio(AudioMessageHeader {
                stream_idx,
                stream_msg: AudioStreamMessageHeader { byte_idx, n_bytes },
            }),
        ),
        ClientMessageFlat::ConnectionSuccess => Client::ConnectionResult(Ok(())),
        ClientMessageFlat::ConnectionFailed => Client::ConnectionResult(Err(Error::Failure)),
        ClientMessageFlat::ConnectionRefused => Client::ConnectionResult(Err(Error::Refusal)),
        ClientMessageFlat::Disconnect => Client::Disconnect,
    }
}

/// The flat form of an IO state change result.
pub open spec fn io_result_to_flat(
    s: IOState<Result<(), Error>, Result<(), Error>>,
) -> ServerMessageFlat {
    match s {
        IOState::Start(Ok(_)) => ServerMessageFlat::StartIOSuccess,
        IOState::Start(Err(Error::Failure)) => ServerMessageFlat::StartIOFailed,
        IOState::Start(Err(Error::Refusal)) => ServerMessageFlat::StartIORefused,
        IOState::Stop(Ok(_)) => ServerMessageFlat::StopIOSuccess,
        IOState::Stop(Err(Error::Failure)) => ServerMessageFlat::StopIOFailed,
        IOState::Stop(Err(Error::Refusal)) => ServerMessageFlat::StopIORefused,
    }
}

/// The flat form of a server message.
pub open spec fn server_to_flat(m: Server) -> ServerMessageFlat {
    match m {
        Server::Connect(f) => ServerMessageFlat::Connect(f),
        Server::Connected(server::Connected::Control(server::Control::IOStateChangeResult(s))) =>
            io_result_to_flat(s),
        Server::Connected(server::Connected::Audio(h)) => ServerMessageFlat::AudioHeader {
            stream_idx: h.stream_idx,
            byte_idx: h.stream_msg.byte_idx,
            n_bytes: h.stream_msg.n_bytes,
        },
        Server::Disconnect => ServerMessageFlat::Disconnect,
    }
}

/// A server control message carrying an IO state change result.
pub open spec fn io_result_message(s: IOState<Result<(), Error>, Result<(), Error>>) -> Server {
    Server::Connected(server::Connected::Control(server::Control::IOStateChangeResult(s)))
}

/// The server message that a flat form stands for.
pub open spec fn server_from_flat(f: ServerMessageFlat) -> Server {
    match f {
        ServerMessageFlat::Connect(s) => Server::Connect(s),
        ServerMessageFlat::StartIOFailed => io_result_message(IOState::Start(Err(Error::Failure))),
        ServerMessageFlat::StartIORefused => io_result_message(IOState::Start(Err(Error::Refusal))),
        ServerMessageFlat::StartIOSuccess => io_result_message(IOState::Start(Ok(()))),
        ServerMessageFlat::StopIOFailed => io_result_message(IOState::Stop(Err(Error::Failure))),
        ServerMessageFlat::StopIORefused => io_result_message(IOState::Stop(Err(Error::Refusal))),
        ServerMessageFlat::StopIOSuccess => io_result_message(IOState::Stop(Ok(()))),
        ServerMessageFlat::AudioHeader { stream_idx, byte_idx, n_bytes } => Server::Connected(
            server::Connected::Audio(AudioMessageHeader {
                stream_idx,
                stream_msg: AudioStreamMessageHeader { byte_idx, n_bytes },
            }),
        ),
        ServerMessageFlat::Disconnect => Server::Disconnect,
    }
}

impl From<Client> for ClientMessageFlat {
    fn from(v: Client) -> (r: Self) {
        match v {
            Client::Discovery => ClientMessageFlat::Discovery,
            Client::Connected(c) => match c {
                client::Connected::Control(ctrl) => match ctrl {
                    client::Control::RequestIOStateChange(s) => match s {
                        IOState::Start(_) => ClientMessageFlat::StartIO,
                        IOState::Stop(_) => ClientMessageFlat::StopIO,
                    },
                },
                client::Connected::Audio(h) => ClientMessageFlat::AudioHeader {
                    stream_idx: h.stream_idx,
                    byte_idx: h.stream_msg.byte_idx,
                    n_bytes: h.stream_msg.n_bytes,
                },
            },
            Client::ConnectionResult(r) => match r {
                Ok(_) => ClientMessageFlat::ConnectionSuccess,
                Err(e) => match e {
                    Error::Failure => ClientMessageFlat::ConnectionFailed,
                    Error::Refusal => ClientMessageFlat::ConnectionRefused,
                },
            },
            Client::Disconnect => ClientMessageFlat::Disconnect,
        }
    }
}

impl FromSpecImpl<Client> for ClientMessageFlat {
    open spec fn obeys_from_spec() -> bool {
        true
    }

    open spec fn from_spec(v: Client) -> Self {
        client_to_flat(v)
    }
}

impl From<ClientMessageFlat> for Client {
    fn from(v: ClientMessageFlat) -> (r: Self) {
        match v {
            ClientMessageFlat::Discovery => Client::Discovery,
            ClientMessageFlat::StartIO => Client::Connected(
                client::Connected::Control(client::Control::RequestIOStateChange(IOState::Start(()))),
            ),
            ClientMessageFlat::StopIO => Client::Connected(
                client::Connected::Control(client::Control::RequestIOStateChange(IOState::Stop(()))),
            ),
            ClientMessageFlat::AudioHeader { stream_idx, byte_idx, n_bytes } => Client::Connected(
                client::Connected::Audio(AudioMessageHeader {
                    stream_idx,
                    stream_msg: AudioStreamMessageHeader { byte_idx, n_bytes },
                }),
            ),
            ClientMessageFlat::ConnectionSuccess => Client::ConnectionResult(Ok(())),
            ClientMessageFlat::ConnectionFailed => Client::ConnectionResult(Err(Error::Failure)),
            ClientMessageFlat::ConnectionRefused => Client::ConnectionResult(Err(Error::Refusal)),
            ClientMessageFlat::Disconnect => Client::Disconnect,
        }
    }
}

impl FromSpecImpl<ClientMessageFlat> for Client {
    open spec fn obeys_from_spec() -> bool {
        true
    }

    open spec fn from_spec(v: ClientMessageFlat) -> Self {
        client_from_flat(v)
    }
}

impl From<Server> for ServerMessageFlat {
    fn from(v: Server) -> (r: Self) {
        match v {
            Server::Connect(f) => ServerMessageFlat::Connect(f),
            Server::Connected(c) => match c {
                server::Connected::Control(ctrl) => match ctrl {
                    server::Control::IOStateChangeResult(s) => match s {
                        IOState::Start(r) => match r {
                            Ok(_) => ServerMessageFlat::StartIOSuccess,
                            Err(e) => match e {
                                Error::Failure => ServerMessageFlat::StartIOFailed,
                                Error::Refusal => ServerMessageFlat::StartIORefused,
                            },
                        },
                        IOState::Stop(r) => match r {
                            Ok(_) => ServerMessageFlat::StopIOSuccess,
                            Err(e) => match e {
                                Error::Failure => ServerMessageFlat::StopIOFailed,
                                Error::Refusal => ServerMessageFlat::StopIORefused,
                            },
                        },
                    },
                },
                server::Connected::Audio(h) => ServerMessageFlat::AudioHeader {
                    stream_idx: h.stream_idx,
                    byte_idx: h.stream_msg.byte_idx,
                    n_bytes: h.stream_msg.n_bytes,
                },
            },
            Server::Disconnect => ServerMessageFlat::Disconnect,
        }
    }
}

impl FromSpecImpl<Server> for ServerMessageFlat {
    open spec fn obeys_from_spec() -> bool {
        true
    }

    open spec fn from_spec(v: Server) -> Self {
        server_to_flat(v)
    }
}

impl From<ServerMessageFlat> for Server {
    fn from(v: ServerMessageFlat) -> (r: Self) {
        match v {
            ServerMessageFlat::Connect(f) => Server::Connect(f),
            ServerMessageFlat::StartIOFailed => Server::Connected(server::Connected::Control(
                server::Control::IOStateChangeResult(IOState::Start(Err(Error::Failure))),
            )),
            ServerMessageFlat::StartIORefused => Server::Connected(server::Connected::Control(
                server::Control::IOStateChangeResult(IOState::Start(Err(Error::Refusal))),
            )),
            ServerMessageFlat::StartIOSuccess => Server::Connected(server::Connected::Control(
                server::Control::IOStateChangeResult(IOState::Start(Ok(()))),
            )),
            ServerMessageFlat::StopIOFailed => Server::Connected(server::Connected::Control(
                server::Control::IOStateChangeResult(IOState::Stop(Err(Error::Failure))),
            )),
            ServerMessageFlat::StopIORefused => Server::Connected(server::Connected::Control(
                server::Control::IOStateChangeResult(IOState::Stop(Err(Error::Refusal))),
            )),
            ServerMessageFlat::StopIOSuccess => Server::Connected(server::Connected::Control(
                server::Control::IOStateChangeResult(IOState::Stop(Ok(()))),
            )),
            ServerMessageFlat::AudioHeader { stream_idx, byte_idx, n_bytes } => Server::Connected(
                server::Connected::Audio(AudioMessageHeader {
                    stream_idx,
                    stream_msg: AudioStreamMessageHeader { byte_idx, n_bytes },
                }),
            ),
            ServerMessageFlat::Disconnect => Server::Disconnect,
        }
    }
}

impl FromSpecImpl<ServerMessageFlat> for Server {
    open spec fn obeys_from_spec() -> bool {
        true
    }

    open spec fn from_spec(v: ServerMessageFlat) -> Self {
        server_from_flat(v)
    }
}

/// Flattening a client message and reading it back gives the same message.
pub proof fn lemma_client_flat_roundtrip(m: Client)
    ensures
        client_from_flat(client_to_flat(m)) == m,
{
    match m {
        Client::Connected(client::Connected::Control(client::Control::RequestIOStateChange(s))) => {
            match s {
                IOState::Start(u) => { assert(u == ()); },
                IOState::Stop(u) => { assert(u == ()); },
            }
        },
        Client::ConnectionResult(r) => {
            match r {
                Ok(u) => { assert(u == ()); },
                Err(_) => {},
            }
        },
        _ => {},
    }
}

/// Every flat client message is the flat form of the message it stands for.
pub proof fn lemma_client_unflat_roundtrip(f: ClientMessageFlat)
    ensures
        client_to_flat(client_from_flat(f)) == f,
{
}

/// Flattening a server message and reading it back gives the same message.
pub proof fn lemma_server_flat_roundtrip(m: Server)
    ensures
        server_from_flat(server_to_flat(m)) == m,
{
    match m {
        Server::Connected(server::Connected::Control(server::Control::IOStateChangeResult(s))) => {
            match s {
                IOState::Start(Ok(u)) => { assert(u == ()); },
                IOState::Stop(Ok(u)) => { assert(u == ()); },
                _ => {},
            }
        },
        _ => {},
    }
}

/// Every flat server message is the flat form of the message it stands for.
pub proof fn lemma_server_unflat_roundtrip(f: ServerMessageFlat)
    ensures
        server_to_flat(server_from_flat(f)) == f,
{
}

} // verus!
