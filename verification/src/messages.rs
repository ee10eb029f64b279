//! A flat message set of the protocol, where audio packets carry their
//! payload by reference.

use vstd::prelude::*;
use crate::format::StreamFormats;

verus! {

/// A chunk of raw audio data, starting at byte `byte_index` of its stream.
///
/// The bytes need not hold whole frames or samples, nor even a frame or
/// sample boundary. When `byte_index` is past the end of the previous chunk,
/// a packet was lost and every byte from the last frame boundary to the next
/// one is lost; when it is before it, the packets came out of order and this
/// chunk is void.
#[derive(Clone, Copy, Debug)]
pub struct AudioData<'a> {
    pub byte_index: u64,
    pub bytes: &'a [u8],
}

/// A chunk of audio data of stream `stream_idx`.
#[derive(Clone, Copy, Debug)]
pub struct AudioPacket<'a> {
    pub stream_idx: u64,
    pub data: AudioData<'a>,
}

/// All messages of the flat message set.
#[derive(Clone, Debug)]
pub enum Message<'a> {
    Connect(StreamFormats),
    HeartBeat,
    Disconnect,
    StartIO,
    StopIO,
    StartIOFailed,
    StartIOSuccess,
    StopIOFailed,
    StopIOSuccess,
    LocalAudio(AudioPacket<'a>),
    PeerAudio(AudioPacket<'a>),
}

} // verus!
