//! Verified core of a live audio link. On the transmit side, buffers captured
//! from an input device are normalized to interleaved stereo, queued, and
//! framed into datagrams, one datagram per buffer. On the receive side, each
//! datagram that arrives is decoded and queued, and the output device is
//! given one queued buffer per period, or silence when none has arrived.
//!
//! The crate holds what the link computes and decides; devices, sockets and
//! threads belong to the program around it. No function here asks anything
//! of its caller, and each states what it gives back for every input.
//!
//! - [`sample`]: the amplitude value, carried as its bit pattern.
//! - [`normalizer`]: captured buffer to stereo frame buffer.
//! - [`queue`]: the first-in, first-out hand-off of frame buffers.
//! - [`wire`]: frame buffer to datagram and back.
//! - [`sender`]: next queued buffer to datagram.
//! - [`receiver`]: received datagram to queued buffer.
//! - [`playback`]: queued buffer, or silence, to output period.

pub mod normalizer;
pub mod playback;
pub mod queue;
pub mod receiver;
pub mod sample;
pub mod sender;
pub mod wire;
