//! syfala, a protocol for real-time audio between networked endpoints, with
//! its stream formats, protocol messages and their wire encoding, sample
//! codecs, timing counters and ring-buffer adapters, and the decisions of
//! the network endpoints and of a Core Audio virtual device.

pub mod format;
pub mod message;
pub mod messages;
pub mod codec;
pub mod wire;
pub mod encoding;
pub mod sample;
pub mod ring;
pub mod queue;
pub mod hal;
pub mod net;
pub mod io;
pub mod peer;
pub mod socket;
pub mod session;
pub mod process;
