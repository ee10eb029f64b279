use std::cell::RefCell;
use std::time::{Duration, Instant};
use syfala::encoding::{client_message_to_slice, server_message_to_slice};
use syfala::io::IoErrorKind;
use syfala::message::client::Connected as ClientConnected;
use syfala::message::{AudioMessageHeader, AudioStreamMessageHeader, Client, Server};
use syfala::socket::{decode_datagram, ClientSocket, ConnectionTimer, SyncUdpSock};

struct Loopback {
    sent: RefCell<Vec<(Vec<u8>, u16)>>,
    inbox: RefCell<Vec<Vec<u8>>>,
}

impl SyncUdpSock for Loopback {
    type Addr = u16;

    fn send(&self, bytes: &[u8], dest_addr: u16) -> Result<(), IoErrorKind> {
        self.sent.borrow_mut().push((bytes.to_vec(), dest_addr));
        Ok(())
    }

    fn recv(&self, bytes: &mut [u8]) -> Result<(usize, u16, Instant), IoErrorKind> {
        match self.inbox.borrow_mut().pop() {
            None => Err(IoErrorKind::WouldBlock),
            Some(d) => {
                bytes[..d.len()].copy_from_slice(&d);
                Ok((d.len(), 9, Instant::now()))
            }
        }
    }

    fn set_recv_timeout(&self, _timeout: Option<Duration>) -> Result<(), IoErrorKind> {
        Ok(())
    }
}

fn loopback() -> ClientSocket<Loopback> {
    ClientSocket::new(Loopback { sent: RefCell::new(vec![]), inbox: RefCell::new(vec![]) })
}

#[test]
fn send_msg_sends_exactly_the_encoded_message() {
    let s = loopback();
    let mut buf = [0xFFu8; 64];
    s.send_msg(Client::Disconnect, 7, &mut buf).unwrap();
    assert_eq!(s.sock().sent.borrow()[0], (vec![7u8], 7));
    s.send_raw_packet(&[1, 2], 3).unwrap();
    assert_eq!(s.sock().sent.borrow()[1], (vec![1u8, 2], 3));
}

#[test]
fn send_msg_refuses_a_small_buffer() {
    let s = loopback();
    let mut buf: [u8; 0] = [];
    assert_eq!(s.send_msg(Client::Discovery, 7, &mut buf), Err(IoErrorKind::Other));
    assert!(s.sock().sent.borrow().is_empty());
}

#[test]
fn recv_decodes_messages() {
    let s = loopback();
    let mut enc = [0u8; 16];
    let n = server_message_to_slice(Server::Disconnect, &mut enc).unwrap();
    let mut datagram = enc[..n].to_vec();
    datagram.extend_from_slice(&[1, 2, 3]);
    s.sock().inbox.borrow_mut().push(datagram);
    s.sock().inbox.borrow_mut().push(vec![200]);
    let mut buf = [0u8; 64];
    let (from, _, m) = s.recv(&mut buf).unwrap();
    assert_eq!(from, 9);
    assert!(m.is_none());
    let mut buf = [0u8; 64];
    let (_, _, m) = s.recv(&mut buf).unwrap();
    let (msg, payload) = m.unwrap();
    assert!(matches!(msg, Server::Disconnect));
    assert_eq!(payload, &[1, 2, 3]);
    let mut buf = [0u8; 64];
    assert_eq!(s.recv(&mut buf).err(), Some(IoErrorKind::WouldBlock));
    assert!(s.set_recv_timeout(None).is_ok());
}

#[test]
fn connection_timer_measures_time() {
    let mut t = ConnectionTimer::new();
    let start = Instant::now();
    while start.elapsed() < Duration::from_millis(2) {}
    assert!(t.elapsed() >= Duration::from_millis(2));
    t.reset();
    assert!(t.elapsed() < Duration::from_secs(5));
}

#[test]
fn recv_ignores_bytes_after_the_datagram() {
    let s = loopback();
    let mut enc = [0u8; 16];
    let n = server_message_to_slice(Server::Disconnect, &mut enc).unwrap();
    let mut datagram = enc[..n].to_vec();
    datagram.extend_from_slice(&[1, 2]);
    s.sock().inbox.borrow_mut().push(datagram);
    let mut buf = [0xAAu8; 64];
    let (_, _, m) = s.recv(&mut buf).unwrap();
    let (msg, payload) = m.unwrap();
    assert!(matches!(msg, Server::Disconnect));
    assert_eq!(payload, &[1, 2]);
}

#[test]
fn decode_datagram_takes_the_reported_length() {
    let mut enc = [0u8; 16];
    let n = server_message_to_slice(Server::Disconnect, &mut enc).unwrap();
    let (msg, payload) = decode_datagram(&enc, n).unwrap();
    assert!(matches!(msg, Server::Disconnect));
    assert!(payload.is_empty());
    // a reported length beyond the buffer takes the whole buffer
    let (_, payload) = decode_datagram(&enc[..n + 2], 100).unwrap();
    assert_eq!(payload.len(), 2);
    assert!(decode_datagram(&enc, 0).is_none());
}

#[test]
fn send_audio_sends_header_then_payload() {
    let s = loopback();
    let mut buf = [0u8; 64];
    s.send_audio(1, 5, &[9, 8, 7], 4, &mut buf).unwrap();
    let header = AudioMessageHeader { stream_idx: 1, stream_msg: AudioStreamMessageHeader { byte_idx: 5, n_bytes: 3 } };
    let mut expected = [0u8; 64];
    let n = client_message_to_slice(Client::Connected(ClientConnected::Audio(header)), &mut expected).unwrap();
    let mut datagram = expected[..n].to_vec();
    datagram.extend_from_slice(&[9, 8, 7]);
    assert_eq!(s.sock().sent.borrow()[0], (datagram, 4));
}

#[test]
fn send_audio_refuses_what_does_not_fit() {
    let s = loopback();
    let mut buf = [0u8; 6];
    assert_eq!(s.send_audio(1, 5, &[9, 8, 7], 4, &mut buf), Err(IoErrorKind::FileTooLarge));
    let mut tiny = [0u8; 1];
    assert_eq!(s.send_audio(1, 5, &[], 4, &mut tiny), Err(IoErrorKind::FileTooLarge));
    assert!(s.sock().sent.borrow().is_empty());
}
