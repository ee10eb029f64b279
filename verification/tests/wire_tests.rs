use syfala::codec::{DecodeError, EncodeError};
use syfala::encoding::{
    client_message_decode, client_message_encode, client_message_to_slice, server_message_decode, server_message_encode,
    server_message_to_slice,
};
use syfala::io::{ChainedWriter, UninitCursor};
use syfala::format::{BufferSize, ChannelCount, Format, SampleRate, SampleType, StreamFormats};
use syfala::message::client::{Connected as ClientConnected, Control as ClientControl};
use syfala::message::server::{Connected as ServerConnected, Control as ServerControl};
use syfala::message::{AudioMessageHeader, AudioStreamMessageHeader, Client, Error, IOState, Server};
use syfala::wire::{ClientMessageFlat, ServerMessageFlat};

fn fmt(hz: f64, ch: u32, buf: Option<u32>, t: SampleType) -> Format {
    Format {
        sample_rate: SampleRate::new(hz.to_bits()).unwrap(),
        channel_count: ChannelCount::new(ch).unwrap(),
        buffer_size: buf.map(|b| BufferSize::new(b).unwrap()),
        sample_type: t,
    }
}

fn header(stream_idx: u32, byte_idx: u64, n_bytes: u32) -> AudioMessageHeader {
    AudioMessageHeader { stream_idx, stream_msg: AudioStreamMessageHeader { byte_idx, n_bytes } }
}

fn encode_client(m: Client) -> Vec<u8> {
    let mut buf = [0u8; 64];
    let n = client_message_to_slice(m, &mut buf).unwrap();
    buf[..n].to_vec()
}

fn encode_server(m: Server) -> Vec<u8> {
    let mut buf = [0u8; 512];
    let n = server_message_to_slice(m, &mut buf).unwrap();
    buf[..n].to_vec()
}

fn all_clients() -> Vec<Client> {
    vec![
        Client::Discovery,
        Client::ConnectionResult(Ok(())),
        Client::ConnectionResult(Err(Error::Failure)),
        Client::ConnectionResult(Err(Error::Refusal)),
        Client::Connected(ClientConnected::Control(ClientControl::RequestIOStateChange(IOState::Start(())))),
        Client::Connected(ClientConnected::Control(ClientControl::RequestIOStateChange(IOState::Stop(())))),
        Client::Connected(ClientConnected::Audio(header(3, 0x0102_0304_0506_0708, 960))),
        Client::Disconnect,
    ]
}

#[test]
fn client_variant_indices() {
    let bytes: Vec<Vec<u8>> = all_clients().into_iter().map(encode_client).collect();
    for (i, b) in bytes.iter().enumerate() {
        assert_eq!(b[0], i as u8);
    }
    assert_eq!(bytes[0], vec![0]);
    assert_eq!(bytes[7], vec![7]);
}

#[test]
fn client_audio_header_is_fixed_width_little_endian() {
    let b = encode_client(Client::Connected(ClientConnected::Audio(header(3, 0x0102_0304_0506_0708, 960))));
    let mut expected = vec![6u8];
    expected.extend_from_slice(&3u32.to_le_bytes());
    expected.extend_from_slice(&0x0102_0304_0506_0708u64.to_le_bytes());
    expected.extend_from_slice(&960u32.to_le_bytes());
    assert_eq!(b, expected);
    assert_eq!(b.len(), 1 + syfala::io::AUDIO_MESSAGE_HEADER_SIZE);
}

#[test]
fn client_messages_roundtrip() {
    for m in all_clients() {
        let mut buf = encode_client(m);
        buf.extend_from_slice(&[9, 8, 7]);
        let (d, rest) = client_message_decode(&buf).unwrap();
        assert_eq!(d, m);
        assert_eq!(rest, &[9, 8, 7]);
    }
}

#[test]
fn client_flat_conversions_roundtrip() {
    for m in all_clients() {
        let f = ClientMessageFlat::from(m);
        assert_eq!(Client::from(f), m);
    }
    assert_eq!(ClientMessageFlat::from(Client::Discovery), ClientMessageFlat::Discovery);
    assert_eq!(
        ClientMessageFlat::from(Client::ConnectionResult(Err(Error::Refusal))),
        ClientMessageFlat::ConnectionRefused
    );
}

#[test]
fn client_encode_buffer_too_small() {
    let mut buf = [0xAAu8; 10];
    let r = client_message_to_slice(Client::Connected(ClientConnected::Audio(header(0, 0, 0))), &mut buf);
    assert_eq!(r, Err(EncodeError::BufferFull));
    assert_eq!(buf, [0xAAu8; 10]);
    let mut empty: [u8; 0] = [];
    assert_eq!(client_message_to_slice(Client::Discovery, &mut empty), Err(EncodeError::BufferFull));
}

#[test]
fn client_decode_errors() {
    assert_eq!(client_message_decode(&[]).unwrap_err(), DecodeError::UnexpectedEnd);
    assert_eq!(client_message_decode(&[8]).unwrap_err(), DecodeError::BadVariant);
    assert_eq!(client_message_decode(&[0x80]).unwrap_err(), DecodeError::UnexpectedEnd);
    assert_eq!(client_message_decode(&[6, 1, 2, 3]).unwrap_err(), DecodeError::UnexpectedEnd);
    assert_eq!(client_message_decode(&[0x80, 0x80, 0x80, 0x80, 0x80, 0x00]).unwrap_err(), DecodeError::BadVarint);
    // a varint with redundant continuation still names variant 1
    let (m, rest) = client_message_decode(&[0x81, 0x00]).unwrap();
    assert_eq!(m, Client::ConnectionResult(Ok(())));
    assert!(rest.is_empty());
}

#[test]
fn varints_agree_with_postcard() {
    assert_eq!(encode_client(Client::Disconnect), postcard::to_allocvec(&7u32).unwrap());
    let f = fmt(48000.0, 300, Some(70000), SampleType::IEEF32);
    let bytes = encode_server(Server::Connect(StreamFormats { inputs: vec![f], outputs: vec![] }));
    let reference = postcard::to_allocvec(&(0u32, 1u64, (48000.0f64, 300u32, Some(70000u32), 10u32), 0u64)).unwrap();
    assert_eq!(bytes, reference);
}

#[test]
fn format_lists_agree_with_postcard() {
    let a = fmt(44100.0, 2, None, SampleType::I16);
    let b = fmt(96000.0, 8, Some(64), SampleType::U64);
    let c = fmt(48000.0, 1, Some(32), SampleType::IEEF64);
    let bytes = encode_server(Server::Connect(StreamFormats { inputs: vec![a, b], outputs: vec![c] }));
    let reference = postcard::to_allocvec(&(
        0u32,
        vec![(44100.0f64, 2u32, None::<u32>, 6u32), (96000.0f64, 8u32, Some(64u32), 4u32)],
        vec![(48000.0f64, 1u32, Some(32u32), 11u32)],
    ))
    .unwrap();
    assert_eq!(bytes, reference);
}

fn all_servers() -> Vec<Server> {
    let f = fmt(48000.0, 2, Some(128), SampleType::I24);
    let mut v = vec![Server::Connect(StreamFormats { inputs: vec![f], outputs: vec![f, Format::standard()] })];
    for r in [Err(Error::Failure), Err(Error::Refusal), Ok(())] {
        v.push(Server::Connected(ServerConnected::Control(ServerControl::IOStateChangeResult(IOState::Start(r)))));
    }
    for r in [Err(Error::Failure), Err(Error::Refusal), Ok(())] {
        v.push(Server::Connected(ServerConnected::Control(ServerControl::IOStateChangeResult(IOState::Stop(r)))));
    }
    v.push(Server::Connected(ServerConnected::Audio(header(1, 42, 7))));
    v.push(Server::Disconnect);
    v
}

fn same_server(a: &Server, b: &Server) -> bool {
    match (a, b) {
        (Server::Connect(x), Server::Connect(y)) => x.inputs == y.inputs && x.outputs == y.outputs,
        (Server::Connected(x), Server::Connected(y)) => x == y,
        (Server::Disconnect, Server::Disconnect) => true,
        _ => false,
    }
}

#[test]
fn server_variant_indices() {
    for (i, m) in all_servers().into_iter().enumerate() {
        assert_eq!(encode_server(m)[0], i as u8);
    }
}

#[test]
fn server_messages_roundtrip() {
    for m in all_servers() {
        let mut buf = encode_server(m.clone());
        buf.push(0x55);
        let (d, rest) = server_message_decode(&buf).unwrap();
        assert!(same_server(&d, &m));
        assert_eq!(rest, &[0x55]);
    }
}

#[test]
fn server_flat_conversions() {
    match ServerMessageFlat::from(Server::Connected(ServerConnected::Control(ServerControl::IOStateChangeResult(
        IOState::Stop(Err(Error::Refusal)),
    )))) {
        ServerMessageFlat::StopIORefused => {}
        other => panic!("unexpected {:?}", other),
    }
    for m in all_servers() {
        let back = Server::from(ServerMessageFlat::from(m.clone()));
        assert!(same_server(&back, &m));
    }
}

#[test]
fn server_decode_errors() {
    assert_eq!(server_message_decode(&[9]).unwrap_err(), DecodeError::BadVariant);
    assert_eq!(server_message_decode(&[0]).unwrap_err(), DecodeError::UnexpectedEnd);
    // one input format with a zero channel count
    let mut bad = vec![0u8, 1];
    bad.extend_from_slice(&48000.0f64.to_le_bytes());
    bad.extend_from_slice(&[0, 0, 10, 0]);
    assert_eq!(server_message_decode(&bad).unwrap_err(), DecodeError::BadValue);
    // an option tag that is neither 0 nor 1
    let mut bad = vec![0u8, 1];
    bad.extend_from_slice(&48000.0f64.to_le_bytes());
    bad.extend_from_slice(&[2, 2, 10, 0]);
    assert_eq!(server_message_decode(&bad).unwrap_err(), DecodeError::BadOption);
    // an unknown sample type
    let mut bad = vec![0u8, 1];
    bad.extend_from_slice(&48000.0f64.to_le_bytes());
    bad.extend_from_slice(&[2, 0, 12, 0]);
    assert_eq!(server_message_decode(&bad).unwrap_err(), DecodeError::BadVariant);
    // a sample rate that is not a positive normal number
    let mut bad = vec![0u8, 1];
    bad.extend_from_slice(&(-1.0f64).to_le_bytes());
    bad.extend_from_slice(&[2, 0, 10, 0]);
    assert_eq!(server_message_decode(&bad).unwrap_err(), DecodeError::BadValue);
}

#[test]
fn next_byte_index() {
    let h = AudioStreamMessageHeader { byte_idx: 1000, n_bytes: 24 };
    assert_eq!(h.next_byte_idx(), 1024);
}

#[test]
fn encode_into_writers() {
    let mut storage = [0u8; 32];
    let m = Client::Connected(ClientConnected::Audio(header(1, 2, 3)));
    let w = client_message_encode(m, UninitCursor::new(&mut storage)).unwrap();
    assert_eq!(w.split().0, encode_client(m).as_slice());
    // across two chained buffers
    let mut a = [0u8; 5];
    let mut b = [0u8; 20];
    let w = client_message_encode(m, ChainedWriter::new(UninitCursor::new(&mut a), UninitCursor::new(&mut b))).unwrap();
    let (first, second) = w.into_inner();
    let mut joined = first.split().0.to_vec();
    joined.extend_from_slice(second.split().0);
    assert_eq!(joined, encode_client(m));
    // a writer that fills up
    let mut small = [0u8; 4];
    assert_eq!(client_message_encode(m, UninitCursor::new(&mut small)).err(), Some(EncodeError::BufferFull));
    let mut big = [0u8; 128];
    let s = Server::Connect(StreamFormats { inputs: vec![Format::standard()], outputs: vec![] });
    let w = server_message_encode(s.clone(), UninitCursor::new(&mut big)).unwrap();
    let (decoded, rest) = server_message_decode(w.split().0).unwrap();
    assert!(same_server(&decoded, &s));
    assert!(rest.is_empty());
}

/// An integer that postcard writes as fixed-width little-endian bytes.
struct Le<T>(T);

impl serde::Serialize for Le<u32> {
    fn serialize<S: serde::Serializer>(&self, s: S) -> Result<S::Ok, S::Error> {
        postcard::fixint::le::serialize(&self.0, s)
    }
}

impl serde::Serialize for Le<u64> {
    fn serialize<S: serde::Serializer>(&self, s: S) -> Result<S::Ok, S::Error> {
        postcard::fixint::le::serialize(&self.0, s)
    }
}

#[test]
fn every_client_variant_agrees_with_postcard() {
    let clients = all_clients();
    for (i, m) in clients.into_iter().enumerate() {
        let reference = match m {
            Client::Connected(ClientConnected::Audio(h)) => postcard::to_allocvec(&(
                i as u32,
                Le(h.stream_idx),
                Le(h.stream_msg.byte_idx),
                Le(h.stream_msg.n_bytes),
            ))
            .unwrap(),
            _ => postcard::to_allocvec(&(i as u32)).unwrap(),
        };
        assert_eq!(encode_client(m), reference, "client variant {i}");
    }
}

#[test]
fn every_server_variant_agrees_with_postcard() {
    for (i, m) in all_servers().into_iter().enumerate() {
        let reference = match &m {
            Server::Connect(_) => postcard::to_allocvec(&(
                0u32,
                vec![(48000.0f64, 2u32, Some(128u32), 7u32)],
                vec![(48000.0f64, 2u32, Some(128u32), 7u32), (48000.0f64, 1u32, Some(32u32), 10u32)],
            ))
            .unwrap(),
            Server::Connected(ServerConnected::Audio(h)) => postcard::to_allocvec(&(
                i as u32,
                Le(h.stream_idx),
                Le(h.stream_msg.byte_idx),
                Le(h.stream_msg.n_bytes),
            ))
            .unwrap(),
            _ => postcard::to_allocvec(&(i as u32)).unwrap(),
        };
        assert_eq!(encode_server(m), reference, "server variant {i}");
    }
}
