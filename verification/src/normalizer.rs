//! The frame normalizer: turns a captured buffer into interleaved stereo.

use crate::queue::FrameQueue;
use crate::sample::Sample;
use vstd::prelude::*;
use vstd::slice::slice_to_vec;

verus! {

/// What a captured buffer becomes on its way to the link. A mono buffer has
/// every sample doubled, left and right alike. A buffer with any other
/// channel count goes through as it is: stereo is what the link carries, and
/// a device with more than two channels is not supported, so its buffers are
/// forwarded without remixing.
pub open spec fn stereo_frames(raw: Seq<Sample>, channels: u16) -> Seq<Sample> {
    if channels == 1 {
        Seq::new((2 * raw.len()) as nat, |i: int| raw[i / 2])
    } else {
        raw
    }
}

/// Converts one captured buffer, delivered with the channel count of its
/// device, into a stereo frame buffer.
pub fn normalize(raw: &[Sample], channels: u16) -> (stereo: Vec<Sample>)
    ensures
        stereo@ == stereo_frames(raw@, channels),
        channels == 1 ==> stereo.len() == 2 * raw.len() && forall|i: int|
            0 <= i < raw.len() ==> stereo@[2 * i] == raw@[i] && stereo@[2 * i + 1] == raw@[i],
        channels != 1 ==> stereo@ == raw@,
{
    if channels == 1 {
        // Room for both copies of every sample, so that the loop does not
        // have to grow the buffer on the capture thread.
        let room: usize = match raw.len().checked_mul(2) {
            Some(n) => n,
            None => raw.len(),
        };
        let mut stereo: Vec<Sample> = Vec::with_capacity(room);
        let mut i: usize = 0;
        while i < raw.len()
            invariant
                i <= raw.len(),
                stereo.len() == 2 * i,
                forall|j: int| 0 <= j < 2 * i ==> stereo@[j] == raw@[j / 2],
            decreases raw.len() - i,
        {
            let sample: Sample = raw[i];
            stereo.push(sample);
            stereo.push(sample);
            i += 1;
        }
        assert(stereo@ =~= stereo_frames(raw@, channels));
        stereo
    } else {
        slice_to_vec(raw)
    }
}

/// One period of the input device: normalizes the captured buffer and hands
/// it to the outbound queue. Nothing here waits, and nothing can fail.
pub fn capture(outbound: &mut FrameQueue, raw: &[Sample], channels: u16)
    ensures
        final(outbound)@ == old(outbound)@.push(stereo_frames(raw@, channels)),
{
    outbound.send(normalize(raw, channels));
}

/// A mono buffer of `n` samples becomes a stereo buffer of `2n` samples in
/// which the left and the right sample of frame `i` are both sample `i` of
/// the input.
pub proof fn lemma_mono_is_doubled(raw: Seq<Sample>)
    ensures
        stereo_frames(raw, 1).len() == 2 * raw.len(),
        forall|i: int|
            0 <= i < raw.len() ==> stereo_frames(raw, 1)[2 * i] == raw[i] && stereo_frames(
                raw,
                1,
            )[2 * i + 1] == raw[i],
{
}

/// A buffer of whole frames from a mono or a stereo device becomes a buffer of
/// whole stereo frames.
pub proof fn lemma_supported_is_stereo(raw: Seq<Sample>, channels: u16)
    requires
        channels == 1 || channels == 2,
        raw.len() % (channels as nat) == 0,
    ensures
        stereo_frames(raw, channels).len() % 2 == 0,
{
}

} // verus!
