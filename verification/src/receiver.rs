//! The datagram receiver: each datagram that arrives becomes one frame buffer
//! in the inbound queue.

use crate::queue::FrameQueue;
use crate::wire::{decode_datagram, frames_of, ByteOrder};
use vstd::prelude::*;

verus! {

/// Size in bytes of the buffer that datagrams are read into: room for 1024
/// samples.
pub const RECEPTION_CAPACITY: usize = 4096;

/// Handles the outcome of one read of the socket. The bytes of a datagram
/// that was read are decoded and the frame buffer is queued for playback,
/// even when it is empty. A read that failed leaves the queue as it was;
/// the caller simply reads again. Datagrams are taken in the order in which
/// they arrive, which need not be the order in which they were sent.
pub fn accept(inbound: &mut FrameQueue, received: Option<&[u8]>, order: ByteOrder)
    ensures
        received is Some ==> final(inbound)@ == old(inbound)@.push(
            frames_of(received->0@, order),
        ),
        received is None ==> final(inbound)@ == old(inbound)@,
{
    match received {
        Some(datagram) => inbound.send(decode_datagram(datagram, order)),
        None => {},
    }
}

} // verus!
