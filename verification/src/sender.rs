//! The datagram sender: one datagram for each frame buffer that the capture
//! side has queued.

use crate::queue::FrameQueue;
use crate::wire::{datagram_of, encode_frames, ByteOrder};
use vstd::prelude::*;

verus! {

/// Takes the next frame buffer from the outbound queue, if one waits, and
/// gives the datagram that carries it. Buffers are neither joined nor split:
/// each becomes the payload of one packet, whatever its size. Whether the
/// packet then leaves is not the queue's concern: the buffer is gone from it
/// either way, and the next call goes on with the next one.
pub fn next_datagram(outbound: &mut FrameQueue, order: ByteOrder) -> (datagram: Option<Vec<u8>>)
    ensures
        old(outbound)@.len() == 0 ==> datagram is None && final(outbound)@ == old(outbound)@,
        old(outbound)@.len() > 0 ==> datagram is Some && datagram->0@ == datagram_of(
            old(outbound)@[0],
            order,
        ) && final(outbound)@ == old(outbound)@.drop_first(),
{
    match outbound.try_recv() {
        Some(frames) => Some(encode_frames(frames.as_slice(), order)),
        None => None,
    }
}

} // verus!
