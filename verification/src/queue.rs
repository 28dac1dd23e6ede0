//! The hand-off between an audio callback and a network worker: frame buffers
//! go in at one end and come out at the other in the order they went in.

use crate::sample::Sample;
use std::collections::VecDeque;
use vstd::prelude::*;

verus! {

/// An unbounded first-in, first-out queue of frame buffers. Each buffer is
/// handed over whole: it belongs to the queue from `send` until `try_recv`
/// gives it out again.
pub struct FrameQueue {
    frames: VecDeque<Vec<Sample>>,
}

impl View for FrameQueue {
    type V = Seq<Seq<Sample>>;

    /// The buffers that wait in the queue, the one that leaves next first.
    closed spec fn view(&self) -> Seq<Seq<Sample>> {
        Seq::new(self.frames@.len(), |i: int| self.frames@[i]@)
    }
}

impl FrameQueue {
    /// Makes a queue in which nothing waits.
    pub fn new() -> (queue: FrameQueue)
        ensures
            queue@ == Seq::<Seq<Sample>>::empty(),
    {
        let queue = FrameQueue { frames: VecDeque::new() };
        assert(queue@ =~= Seq::<Seq<Sample>>::empty());
        queue
    }

    /// Number of buffers that wait.
    pub fn len(&self) -> (n: usize)
        ensures
            n == self@.len(),
    {
        self.frames.len()
    }

    /// Whether nothing waits.
    pub fn is_empty(&self) -> (empty: bool)
        ensures
            empty <==> self@.len() == 0,
    {
        self.frames.len() == 0
    }

    /// Puts one buffer at the end of the queue. This never waits and never
    /// fails: there is no bound that a buffer could run into.
    pub fn send(&mut self, frames: Vec<Sample>)
        ensures
            final(self)@ == old(self)@.push(frames@),
            final(self)@ == after_step(old(self)@, QueueStep::Send(frames@)),
    {
        self.frames.push_back(frames);
        assert(self@ =~= old(self)@.push(frames@));
    }

    /// Takes the buffer at the front of the queue, if there is one, without
    /// waiting for one to arrive.
    pub fn try_recv(&mut self) -> (polled: Option<Vec<Sample>>)
        ensures
            old(self)@.len() == 0 ==> polled is None && final(self)@ == old(self)@,
            old(self)@.len() > 0 ==> polled is Some && polled->0@ == old(self)@[0] && final(self)@
                == old(self)@.drop_first(),
            final(self)@ == after_step(old(self)@, QueueStep::Poll),
            samples_in(polled) == given_by(old(self)@, QueueStep::Poll),
    {
        let polled = self.frames.pop_front();
        assert(self@ =~= if old(self)@.len() == 0 {
            old(self)@
        } else {
            old(self)@.drop_first()
        });
        polled
    }
}

/// One use of a queue by one of its two sides.
pub enum QueueStep {
    /// The producer sends this buffer.
    Send(Seq<Sample>),
    /// The consumer polls for a buffer.
    Poll,
}

/// The samples of the buffer that a poll gave, if it gave one.
pub open spec fn samples_in(polled: Option<Vec<Sample>>) -> Option<Seq<Sample>> {
    match polled {
        Some(frames) => Some(frames@),
        None => None,
    }
}

/// What waits in a queue after one step, given what waited before it.
pub open spec fn after_step(waiting: Seq<Seq<Sample>>, step: QueueStep) -> Seq<Seq<Sample>> {
    match step {
        QueueStep::Send(frames) => waiting.push(frames),
        QueueStep::Poll => if waiting.len() > 0 {
            waiting.drop_first()
        } else {
            waiting
        },
    }
}

/// The buffer that one step hands to the consumer, if it hands one.
pub open spec fn given_by(waiting: Seq<Seq<Sample>>, step: QueueStep) -> Option<Seq<Sample>> {
    match step {
        QueueStep::Send(frames) => None,
        QueueStep::Poll => if waiting.len() > 0 {
            Some(waiting[0])
        } else {
            None
        },
    }
}

/// The buffers that wait in a queue that started empty and has gone through
/// `steps`, in whatever way the two sides took their turns.
pub open spec fn waiting_after(steps: Seq<QueueStep>) -> Seq<Seq<Sample>>
    decreases steps.len(),
{
    if steps.len() == 0 {
        Seq::empty()
    } else {
        after_step(waiting_after(steps.drop_last()), steps.last())
    }
}

/// The buffers that the polls among `steps` have given to the consumer, in
/// the order in which it got them.
pub open spec fn delivered_after(steps: Seq<QueueStep>) -> Seq<Seq<Sample>>
    decreases steps.len(),
{
    if steps.len() == 0 {
        Seq::empty()
    } else {
        let earlier = delivered_after(steps.drop_last());
        match given_by(waiting_after(steps.drop_last()), steps.last()) {
            Some(frames) => earlier.push(frames),
            None => earlier,
        }
    }
}

/// The buffers that the producer has sent among `steps`, in the order in
/// which it sent them.
pub open spec fn sent_in(steps: Seq<QueueStep>) -> Seq<Seq<Sample>>
    decreases steps.len(),
{
    if steps.len() == 0 {
        Seq::empty()
    } else {
        let earlier = sent_in(steps.drop_last());
        match steps.last() {
            QueueStep::Send(frames) => earlier.push(frames),
            QueueStep::Poll => earlier,
        }
    }
}

/// Order of delivery: however sends and polls take turns, what the consumer
/// has got, followed by what still waits, is exactly what the producer has
/// sent, in the order in which it sent it. No buffer is lost, none comes
/// twice, and none overtakes another.
pub proof fn lemma_delivery_in_order(steps: Seq<QueueStep>)
    ensures
        delivered_after(steps) + waiting_after(steps) == sent_in(steps),
    decreases steps.len(),
{
    if steps.len() > 0 {
        lemma_delivery_in_order(steps.drop_last());
    }
    assert(delivered_after(steps) + waiting_after(steps) =~= sent_in(steps));
}

} // verus!
