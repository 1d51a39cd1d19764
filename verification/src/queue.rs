//! The sample queue: an unbounded first-in first-out channel with one
//! sending and one receiving end.
//!
//! The channel itself is `std::sync::mpsc`. Each end keeps a ghost record of
//! what it asked of the channel and of what came of it, so that what the
//! producer and the consumer do with the queue can be stated: which samples
//! were handed over and which of them the queue accepted, what each receive
//! gave and how long the queue was asked to wait for it, and in what order.

use std::sync::mpsc::{Receiver, Sender};
use vstd::prelude::*;

verus! {

/// How long the receiving end waits for one sample, in milliseconds.
pub const RECEIVE_TIMEOUT_MS: u64 = 1;

/// The longest wait that the channel is asked for, in milliseconds: one
/// minute. A deadline this near can always be computed.
pub const MAX_WAIT_MS: u64 = 60_000;

/// `std::sync::mpsc::Sender`, declared as an opaque type: nothing is known
/// of what a value of it holds.
#[verifier::external_type_specification]
#[verifier::external_body]
#[verifier::reject_recursive_types(T)]
pub struct ExSender<T>(std::sync::mpsc::Sender<T>);

/// `std::sync::mpsc::Receiver`, declared as an opaque type: nothing is known
/// of what a value of it holds.
#[verifier::external_type_specification]
#[verifier::external_body]
#[verifier::reject_recursive_types(T)]
pub struct ExReceiver<T>(std::sync::mpsc::Receiver<T>);

/// Makes an unbounded channel with `std::sync::mpsc::channel`.
///
/// Trusted: nothing of the result; the two ends are opaque.
#[verifier::external_body]
fn open_channel<T>() -> (ends: (Sender<T>, Receiver<T>)) {
    std::sync::mpsc::channel()
}

/// Hands `sample` to the channel with `Sender::send`, which never blocks.
/// `false` where the receiving end is gone, and the sample with it.
///
/// Trusted: nothing of the result, which depends on what the receiving end
/// did.
#[verifier::external_body]
fn offer<T>(channel: &Sender<T>, sample: T) -> (accepted: bool) {
    channel.send(sample).is_ok()
}

/// Waits up to `millis` milliseconds for the next sample of the channel, with
/// `Receiver::recv_timeout`. `None` stands for both of its errors: nothing
/// arrived in time, or the sending end is gone and the channel is empty.
///
/// Trusted: that the call returns for a wait of up to [`MAX_WAIT_MS`].
/// Nothing of the result, which depends on what the sending end did and
/// when.
#[verifier::external_body]
fn take_within<T>(channel: &Receiver<T>, millis: u64) -> (taken: Option<T>)
    requires
        millis <= MAX_WAIT_MS,
{
    channel.recv_timeout(std::time::Duration::from_millis(millis)).ok()
}

/// The sending end of a sample queue.
#[verifier::reject_recursive_types(T)]
pub struct SampleSender<T> {
    channel: Sender<T>,
    handed: Ghost<Seq<T>>,
    log: Ghost<Seq<T>>,
}

/// The receiving end of a sample queue.
#[verifier::reject_recursive_types(T)]
pub struct SampleReceiver<T> {
    channel: Receiver<T>,
    asked: Ghost<nat>,
    log: Ghost<Seq<Option<T>>>,
}

/// A new queue: its two ends, with nothing offered, nothing sent, no
/// receive made, nothing received and no wait asked for.
pub fn sample_queue<T>() -> (ends: (SampleSender<T>, SampleReceiver<T>))
    ensures
        ends.0.offered() == Seq::<T>::empty(),
        ends.0.sent() == Seq::<T>::empty(),
        ends.1.outcomes() == Seq::<Option<T>>::empty(),
        ends.1.received() == Seq::<T>::empty(),
        ends.1.wait_asked() == 0,
{
    let (sender, receiver) = open_channel();
    (
        SampleSender { channel: sender, handed: Ghost(Seq::empty()), log: Ghost(Seq::empty()) },
        SampleReceiver { channel: receiver, asked: Ghost(0), log: Ghost(Seq::empty()) },
    )
}

/// The log of a sending end after one send.
pub open spec fn sent_after<T>(sent: Seq<T>, sample: T, accepted: bool) -> Seq<T> {
    if accepted {
        sent.push(sample)
    } else {
        sent
    }
}

/// The log of a receiving end after one receive.
pub open spec fn received_after<T>(received: Seq<T>, taken: Option<T>) -> Seq<T> {
    match taken {
        Some(sample) => received.push(sample),
        None => received,
    }
}

/// The samples that a run of receives took out of the queue, in their order:
/// what is left of the run when its underruns are taken away.
pub open spec fn arrivals_in<T>(run: Seq<Option<T>>) -> Seq<T>
    decreases run.len(),
{
    if run.len() == 0 {
        Seq::empty()
    } else {
        received_after(arrivals_in(run.drop_last()), run.last())
    }
}

impl<T> SampleSender<T> {
    /// The samples that were handed to the queue at this end, oldest first,
    /// whether the queue accepted them or not.
    pub closed spec fn offered(&self) -> Seq<T> {
        self.handed@
    }

    /// The samples that the queue accepted from this end, oldest first.
    pub closed spec fn sent(&self) -> Seq<T> {
        self.log@
    }

    /// Hands `sample` to the queue, without waiting. Returns whether the
    /// queue accepted it: it refuses once the receiving end is gone.
    ///
    /// Whether the queue accepts is not in this function's hands. What is:
    /// the queue is offered `sample`, once, and nothing else, and the sample
    /// counts as sent exactly where the queue accepted it.
    pub fn send(&mut self, sample: T) -> (accepted: bool)
        ensures
            final(self).offered() == old(self).offered().push(sample),
            final(self).sent() == sent_after(old(self).sent(), sample, accepted),
    {
        let ghost handed = sample;
        let accepted = offer(&self.channel, sample);
        proof {
            self.handed@ = self.handed@.push(handed);
            self.log@ = sent_after(self.log@, handed, accepted);
        }
        accepted
    }
}

impl<T> SampleReceiver<T> {
    /// What each receive made at this end gave, oldest first: a sample, or
    /// `None` for an underrun.
    pub closed spec fn outcomes(&self) -> Seq<Option<T>> {
        self.log@
    }

    /// The samples that were taken out of the queue at this end, oldest
    /// first.
    pub open spec fn received(&self) -> Seq<T> {
        arrivals_in(self.outcomes())
    }

    /// The time that this end has asked the queue to wait for samples, in
    /// milliseconds, all receives taken together.
    pub closed spec fn wait_asked(&self) -> nat {
        self.asked@
    }

    /// Takes the next sample out of the queue, waiting for it no longer than
    /// [`RECEIVE_TIMEOUT_MS`]. `None` is an underrun: no sample was there in
    /// time.
    ///
    /// Whether a sample arrives is not in this function's hands. What is:
    /// the queue is asked once, for a wait of [`RECEIVE_TIMEOUT_MS`] and no
    /// longer, and what it gave is what is returned, what is recorded as
    /// the outcome and, if it is a sample, what counts as received.
    pub fn receive(&mut self) -> (taken: Option<T>)
        ensures
            final(self).outcomes() == old(self).outcomes().push(taken),
            final(self).wait_asked() == old(self).wait_asked() + RECEIVE_TIMEOUT_MS,
            final(self).received() == received_after(old(self).received(), taken),
    {
        let wait: u64 = RECEIVE_TIMEOUT_MS;
        let taken = take_within(&self.channel, wait);
        proof {
            let before = self.log@;
            assert(before.push(taken).drop_last() =~= before);
            self.asked@ = self.asked@ + wait as nat;
            self.log@ = before.push(taken);
        }
        taken
    }
}

} // verus!
