//! Datagram sockets as the library sees them, the client's socket (sending
//! and receiving encoded protocol messages), and the timer that keeps
//! connections alive.

use vstd::prelude::*;
use core::time::Duration;
use std::time::Instant;
use crate::codec::DecodeError;
use crate::encoding::{client_message_to_slice, parse_server_flat, server_message_decode, ser_client_flat};
use crate::io::{IoErrorKind, decode_error_kind, encode_error_kind};
use crate::message::{AudioMessageHeader, AudioStreamMessageHeader, Client, Server};
use crate::message::client::Connected as ClientConnected;
use crate::wire::{client_to_flat, server_to_flat};

verus! {

#[verifier::external_type_specification]
#[verifier::external_body]
pub struct ExInstant(std::time::Instant);

/// A blocking datagram socket, whose peers have addresses of type `Addr`.
pub trait SyncUdpSock {
    type Addr;

    /// Whether sending `bytes` as one datagram to `dest_addr` can give `r`.
    /// What a socket does is its own affair: one whose code Verus does not
    /// read says nothing of it.
    open spec fn sends(&self, bytes: Seq<u8>, dest_addr: Self::Addr, r: Result<(), IoErrorKind>) -> bool {
        true
    }

    /// Whether a receive into a buffer that held `before` can leave it holding
    /// `after` and report a datagram of `n` bytes from `src_addr`. A socket
    /// whose code Verus does not read says nothing of it.
    open spec fn receives(&self, before: Seq<u8>, after: Seq<u8>, n: usize, src_addr: Self::Addr) -> bool {
        true
    }

    /// Sends `bytes` as one datagram to `dest_addr`.
    fn send(&self, bytes: &[u8], dest_addr: Self::Addr) -> (r: Result<(), IoErrorKind>)
        ensures
            self.sends(bytes@, dest_addr, r),
    ;

    /// Receives one datagram into `bytes`: its length, its sender, and when
    /// it arrived.
    fn recv(&self, bytes: &mut [u8]) -> (r: Result<(usize, Self::Addr, Instant), IoErrorKind>)
        ensures
            r matches Ok((n, a, _)) ==> self.receives(old(bytes)@, final(bytes)@, n, a),
    ;

    /// Sets how long a receive waits (forever when `None`).
    fn set_recv_timeout(&self, timeout: Option<Duration>) -> Result<(), IoErrorKind>;
}

/// A client's socket, through which it talks to one or more servers.
#[derive(Debug)]
pub struct ClientSocket<T> {
    sock: T,
}

impl<T> ClientSocket<T> {
    pub closed spec fn spec_sock(&self) -> T {
        self.sock
    }

    /// A client socket backed by `sock`.
    pub fn new(sock: T) -> (r: ClientSocket<T>)
        ensures
            r.spec_sock() == sock,
    {
        ClientSocket { sock }
    }

    /// The underlying socket.
    pub fn sock(&self) -> (r: &T)
        ensures
            *r == self.spec_sock(),
    {
        &self.sock
    }
}

/// What receiving a datagram of `n` bytes held in `buf` gives: `None` when
/// the bytes do not decode as a server message, else the message and the
/// payload that follows it.
pub open spec fn received_message(datagram: Seq<u8>, r: Option<(Server, Seq<u8>)>) -> bool {
    match parse_server_flat(datagram, 0) {
        Ok((f, p)) => r matches Some((m, rest)) && server_to_flat(m)@ == f
            && rest == datagram.subrange(p, datagram.len() as int),
        Err(_) => r is None,
    }
}

/// A decoded message, with its payload seen as a sequence.
pub open spec fn decoded_view(m: Option<(Server, &[u8])>) -> Option<(Server, Seq<u8>)> {
    match m {
        Some((msg, rest)) => Some((msg, rest@)),
        None => None,
    }
}

/// The datagram that carries audio of stream `stream_idx`, from byte
/// `byte_idx` of the stream on: the encoded audio message header, then the
/// payload.
pub open spec fn audio_datagram(stream_idx: u32, byte_idx: u64, payload: Seq<u8>) -> Seq<u8> {
    ser_client_flat(client_to_flat(audio_message(stream_idx, byte_idx, payload.len() as u32))) + payload
}

/// The client message that heads `n_bytes` bytes of audio of stream
/// `stream_idx`, from byte `byte_idx` of the stream on.
pub open spec fn audio_message(stream_idx: u32, byte_idx: u64, n_bytes: u32) -> Client {
    Client::Connected(ClientConnected::Audio(AudioMessageHeader {
        stream_idx,
        stream_msg: AudioStreamMessageHeader { byte_idx, n_bytes },
    }))
}

/// The datagram of `n` bytes at the front of `buf`: all of `buf` when it is
/// shorter.
pub open spec fn reported_datagram(buf: Seq<u8>, n: usize) -> Seq<u8> {
    buf.take(if n <= buf.len() { n as int } else { buf.len() as int })
}

/// Decodes the datagram of `n` bytes at the front of `buf` (all of `buf` when
/// it is shorter): the server message it holds and the payload that follows,
/// or `None` when it holds none.
pub fn decode_datagram<'a>(buf: &'a [u8], n: usize) -> (r: Option<(Server, &'a [u8])>)
    ensures
        received_message(reported_datagram(buf@, n), decoded_view(r)),
{
    let len = if n <= buf.len() { n } else { buf.len() };
    let (datagram, _) = buf.split_at(len);
    let decoded = match server_message_decode(datagram) {
        Ok((m, rest)) => Some((m, rest)),
        Err(_) => None,
    };
    proof {
        assert(datagram@ =~= buf@.take(len as int));
    }
    decoded
}

impl<T: SyncUdpSock> ClientSocket<T> {
    /// Sends `bytes` as one datagram.
    pub fn send_raw_packet(&self, bytes: &[u8], dest_addr: T::Addr) -> (r: Result<(), IoErrorKind>)
        ensures
            self.spec_sock().sends(bytes@, dest_addr, r),
    {
        self.sock.send(bytes, dest_addr)
    }

    /// Encodes `message` into `buf` and sends the encoded bytes, and only
    /// them, as one datagram, returning what the socket answered. A message
    /// that does not fit in `buf` is not sent.
    pub fn send_msg(&self, message: Client, server_addr: T::Addr, buf: &mut [u8]) -> (r: Result<(), IoErrorKind>)
        ensures
            ser_client_flat(client_to_flat(message)).len() > old(buf)@.len() ==> r == Err::<(), IoErrorKind>(IoErrorKind::Other),
            ser_client_flat(client_to_flat(message)).len() <= old(buf)@.len() ==> {
                &&& final(buf)@.take(ser_client_flat(client_to_flat(message)).len() as int) == ser_client_flat(client_to_flat(message))
                &&& self.spec_sock().sends(ser_client_flat(client_to_flat(message)), server_addr, r)
            },
    {
        match client_message_to_slice(message, buf) {
            Err(e) => Err(encode_error_kind(e)),
            Ok(n) => {
                let ghost b = buf@;
                let (bytes, _) = buf.split_at(n);
                proof {
                    assert(b.take(n as int) =~= ser_client_flat(client_to_flat(message)));
                    assert(bytes@ =~= b.take(n as int));
                }
                self.send_raw_packet(bytes, server_addr)
            },
        }
    }

    /// Sends `payload`, bytes of stream `stream_idx` from byte `byte_idx` of
    /// the stream on, as one audio datagram built in `buf`: the encoded
    /// message header, then the payload. A payload longer than a header can
    /// count, or a datagram that does not fit in `buf`, is not sent: the
    /// error is `FileTooLarge`.
    pub fn send_audio(&self, stream_idx: u32, byte_idx: u64, payload: &[u8], dest_addr: T::Addr, buf: &mut [u8])
        -> (r: Result<(), IoErrorKind>)
        ensures
            payload@.len() > u32::MAX || audio_datagram(stream_idx, byte_idx, payload@).len() > old(buf)@.len()
                ==> r == Err::<(), IoErrorKind>(IoErrorKind::FileTooLarge),
            payload@.len() <= u32::MAX && audio_datagram(stream_idx, byte_idx, payload@).len() <= old(buf)@.len() ==> {
                &&& final(buf)@.take(audio_datagram(stream_idx, byte_idx, payload@).len() as int)
                    == audio_datagram(stream_idx, byte_idx, payload@)
                &&& self.spec_sock().sends(audio_datagram(stream_idx, byte_idx, payload@), dest_addr, r)
            },
    {
        if payload.len() > u32::MAX as usize {
            return Err(IoErrorKind::FileTooLarge);
        }
        let header = AudioMessageHeader {
            stream_idx,
            stream_msg: AudioStreamMessageHeader { byte_idx, n_bytes: payload.len() as u32 },
        };
        let message = Client::Connected(ClientConnected::Audio(header));
        assert(message == audio_message(stream_idx, byte_idx, payload@.len() as u32));
        let ghost head = ser_client_flat(client_to_flat(message));
        match client_message_to_slice(message, buf) {
            Err(_) => Err(IoErrorKind::FileTooLarge),
            Ok(n) => {
                if payload.len() > buf.len() - n {
                    return Err(IoErrorKind::FileTooLarge);
                }
                let end = n + payload.len();
                let mut i: usize = 0;
                while i < payload.len()
                    invariant
                        n + payload@.len() == end,
                        end <= buf@.len(),
                        i <= payload@.len(),
                        buf@.len() == old(buf)@.len(),
                        head.len() == n,
                        buf@.take(n as int) == head,
                        buf@.subrange(n as int, n + i) == payload@.take(i as int),
                    decreases payload@.len() - i,
                {
                    let ghost before = buf@;
                    buf[n + i] = payload[i];
                    i = i + 1;
                    proof {
                        assert(buf@.take(n as int) =~= before.take(n as int));
                        assert(buf@.subrange(n as int, n + i) =~= payload@.take(i as int));
                    }
                }
                let ghost b = buf@;
                let (bytes, _) = buf.split_at(end);
                proof {
                    assert(payload@.take(payload@.len() as int) =~= payload@);
                    assert(b.take(end as int) =~= b.take(n as int) + b.subrange(n as int, end as int));
                    assert(bytes@ =~= audio_datagram(stream_idx, byte_idx, payload@));
                }
                self.send_raw_packet(bytes, dest_addr)
            },
        }
    }

    /// Sets how long a receive waits.
    pub fn set_recv_timeout(&self, timeout: Option<Duration>) -> Result<(), IoErrorKind> {
        self.sock.set_recv_timeout(timeout)
    }

    /// Receives a datagram into `buf` and decodes it: its sender, when it
    /// arrived, and the server message it holds with the payload that
    /// follows, or `None` when it holds none. Only the bytes of the datagram
    /// that the socket reported are decoded.
    pub fn recv<'a>(&self, buf: &'a mut [u8]) -> (r: Result<(T::Addr, Instant, Option<(Server, &'a [u8])>), IoErrorKind>)
        ensures
            r matches Ok((a, _, m)) ==> exists|n: usize| {
                &&& #[trigger] self.spec_sock().receives(old(buf)@, final(buf)@, n, a)
                &&& received_message(reported_datagram(final(buf)@, n), decoded_view(m))
            },
    {
        match self.sock.recv(buf) {
            Err(e) => Err(e),
            Ok((n, server, timestamp)) => {
                let ghost after = buf@;
                let bytes: &'a [u8] = buf;
                let decoded = decode_datagram(bytes, n);
                let res: Result<(T::Addr, Instant, Option<(Server, &'a [u8])>), IoErrorKind> = Ok((server, timestamp, decoded));
                assert(self.spec_sock().receives(old(buf)@, after, n, res->Ok_0.0)
                    && received_message(reported_datagram(after, n), decoded_view(res->Ok_0.2)));
                res
            },
        }
    }
}

/// `Instant::now`: the current time of the monotonic clock. Nothing is
/// promised of it.
#[verifier::external_body]
pub(crate) fn instant_now() -> (r: Instant) {
    Instant::now()
}

/// `Instant::elapsed`: the time since `i`. Nothing is promised of it.
#[verifier::external_body]
fn instant_elapsed(i: &Instant) -> (r: Duration) {
    i.elapsed()
}

/// A timeout for heartbeats (or any other message), to keep datagram
/// "connections" alive.
pub struct ConnectionTimer(pub Instant);

impl ConnectionTimer {
    /// A timer measuring time from now.
    pub fn new() -> ConnectionTimer {
        ConnectionTimer(instant_now())
    }

    /// Measures time from now again.
    pub fn reset(&mut self) {
        *self = ConnectionTimer::new();
    }

    /// The time since the timer was created or last reset.
    pub fn elapsed(&self) -> Duration {
        instant_elapsed(&self.0)
    }
}

} // verus!
