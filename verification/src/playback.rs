//! The playback filler: gives the output device what has arrived, or silence.

use crate::queue::FrameQueue;
use crate::sample::Sample;
use vstd::prelude::*;

verus! {

/// A period of silence, `len` samples long.
pub open spec fn silent_period(len: nat) -> Seq<Sample> {
    Seq::new(len, |i: int| Sample::silence())
}

/// An output period onto which an arrived buffer has been laid: position by
/// position the arrived samples, as far as both reach. Where the arrived
/// buffer is the shorter one, the rest of the period keeps what it held
/// before; where it is the longer one, its rest is not played.
pub open spec fn overlaid(previous: Seq<Sample>, arrived: Seq<Sample>) -> Seq<Sample> {
    Seq::new(
        previous.len(),
        |i: int|
            if i < arrived.len() {
                arrived[i]
            } else {
                previous[i]
            },
    )
}

/// What one output period holds once it is filled: the arrived buffer laid
/// onto it, or silence all through when nothing has arrived.
pub open spec fn played(previous: Seq<Sample>, arrived: Option<Seq<Sample>>) -> Seq<Sample> {
    match arrived {
        Some(frames) => overlaid(previous, frames),
        None => silent_period(previous.len()),
    }
}

/// The samples of a buffer that a poll of the queue gave, if it gave one.
pub open spec fn samples_of(arrived: Option<&[Sample]>) -> Option<Seq<Sample>> {
    match arrived {
        Some(frames) => Some(frames@),
        None => None,
    }
}

/// Fills one output period from the buffer that was polled, if any.
pub fn fill_output(output: &mut [Sample], arrived: Option<&[Sample]>)
    ensures
        final(output)@ == played(old(output)@, samples_of(arrived)),
        final(output)@.len() == old(output)@.len(),
{
    let len: usize = output.len();
    match arrived {
        Some(frames) => {
            let reach: usize = if frames.len() < len {
                frames.len()
            } else {
                len
            };
            let mut i: usize = 0;
            while i < reach
                invariant
                    i <= reach,
                    reach <= len,
                    reach <= frames.len(),
                    output@.len() == len,
                    old(output)@.len() == len,
                    forall|j: int| 0 <= j < i ==> output@[j] == frames@[j],
                    forall|j: int| i <= j < len ==> output@[j] == old(output)@[j],
                decreases reach - i,
            {
                output[i] = frames[i];
                i += 1;
            }
            assert(output@ =~= overlaid(old(output)@, frames@));
        },
        None => {
            let mut i: usize = 0;
            while i < len
                invariant
                    i <= len,
                    output@.len() == len,
                    forall|j: int| 0 <= j < i ==> output@[j] == Sample::silence(),
                decreases len - i,
            {
                output[i] = Sample::silence();
                i += 1;
            }
            assert(output@ =~= silent_period(old(output)@.len()));
        },
    }
}

/// One period of the output device: polls the inbound queue once, without
/// waiting, and fills the period from what it got. At most one buffer leaves
/// the queue per period, and when none waits the whole period is silence.
pub fn play(inbound: &mut FrameQueue, output: &mut [Sample])
    ensures
        final(output)@.len() == old(output)@.len(),
        old(inbound)@.len() == 0 ==> final(inbound)@ == old(inbound)@ && final(output)@ == played(
            old(output)@,
            None,
        ),
        old(inbound)@.len() > 0 ==> final(inbound)@ == old(inbound)@.drop_first() && final(output)@
            == played(old(output)@, Some(old(inbound)@[0])),
{
    match inbound.try_recv() {
        Some(frames) => fill_output(output, Some(frames.as_slice())),
        None => fill_output(output, None),
    }
}

/// Underrun: a period that is filled while nothing has arrived is all zeros,
/// whatever it held before.
pub proof fn lemma_underrun_is_silence(previous: Seq<Sample>)
    ensures
        played(previous, None).len() == previous.len(),
        forall|i: int| 0 <= i < previous.len() ==> (#[trigger] played(previous, None)[i]).bits == 0,
{
}

} // verus!
