//! The producing end of a cable: decoding a stream, scaling its native
//! samples and handing them to the sample queue.
//!
//! How a native sample is scaled is the caller's choice, passed in as a
//! function. What is fixed here is the order: the queue gets the scaled
//! samples one for one and in the order of the native ones.

use crate::decode::{decoded, native_samples, DecodeError};
use crate::queue::SampleSender;
use vstd::prelude::*;

verus! {

/// Whether `scaled` is what `scale` gave for the samples of `native`, one for
/// one and in their order.
pub open spec fn scaled_by<T, F: Fn(i32) -> T>(scale: F, native: Seq<i32>, scaled: Seq<T>) -> bool {
    &&& scaled.len() == native.len()
    &&& forall|i: int|
        0 <= i < native.len() ==> call_ensures(scale, (native[i],), #[trigger] scaled[i])
}

/// Whether a log of a queue that held `before` and now holds `after` took in
/// between the first `count` samples of `native`, scaled by `scale`, in
/// their order, and nothing else.
pub open spec fn enqueued<T, F: Fn(i32) -> T>(
    scale: F,
    native: Seq<i32>,
    count: int,
    before: Seq<T>,
    after: Seq<T>,
) -> bool {
    &&& 0 <= count <= native.len()
    &&& exists|scaled: Seq<T>| #[trigger]
        scaled_by(scale, native.take(count), scaled) && after == before + scaled
}

/// How many samples the queue was offered where it accepted `sent` of
/// `len`: the ones it accepted, and the one it refused if it refused one.
pub open spec fn offers_for(len: int, sent: int) -> int {
    if sent < len {
        sent + 1
    } else {
        sent
    }
}

/// What became of a queue that was handed the samples of `native`, scaled by
/// `scale`, and accepted `sent` of them: it was offered every sample up to
/// and including the first one it refused, in order and nothing else, and
/// what it accepted are the first `sent` of those.
pub open spec fn handed_over<T, F: Fn(i32) -> T>(
    scale: F,
    native: Seq<i32>,
    sent: int,
    before: SampleSender<T>,
    after: SampleSender<T>,
) -> bool {
    &&& enqueued(
        scale,
        native,
        offers_for(native.len() as int, sent),
        before.offered(),
        after.offered(),
    )
    &&& enqueued(scale, native, sent, before.sent(), after.sent())
    &&& after.sent() == before.sent() + after.offered().subrange(
        before.offered().len() as int,
        before.offered().len() + sent,
    )
}

/// A queue that refused nothing got everything: where the queue accepted
/// as many samples as it was offered, it was offered, and has accepted, all
/// the samples of `native`, scaled, in their order.
pub proof fn lemma_nothing_refused_is_all_sent<T, F: Fn(i32) -> T>(
    scale: F,
    native: Seq<i32>,
    sent: int,
    before: SampleSender<T>,
    after: SampleSender<T>,
)
    requires
        handed_over(scale, native, sent, before, after),
        after.offered().len() - before.offered().len() == after.sent().len() - before.sent().len(),
    ensures
        sent == native.len(),
        enqueued(scale, native, native.len() as int, before.sent(), after.sent()),
        after.sent() == before.sent() + after.offered().skip(before.offered().len() as int),
{
    let tried = offers_for(native.len() as int, sent);
    let offered = choose|scaled: Seq<T>| #[trigger]
        scaled_by(scale, native.take(tried), scaled) && after.offered() == before.offered()
            + scaled;
    let accepted = choose|scaled: Seq<T>| #[trigger]
        scaled_by(scale, native.take(sent), scaled) && after.sent() == before.sent() + scaled;
    assert(offered.len() == tried);
    assert(accepted.len() == sent);
}

/// Scales the samples of `native` one by one, first sample first, and hands
/// each to `queue`. Stops at the first one that the queue refuses, and
/// returns how many it accepted: all of them, unless the queue refused one.
///
/// Whether the queue accepts is not in this function's hands. What is: the
/// queue is offered every sample up to and including the first one it
/// refuses, scaled, in order and nothing else; so with nothing refused it is
/// offered, and has accepted, all of them.
pub fn enqueue_scaled<T, F: Fn(i32) -> T>(
    queue: &mut SampleSender<T>,
    native: &[i32],
    scale: F,
) -> (sent: usize)
    requires
        forall|sample: i32| call_requires(scale, (sample,)),
    ensures
        handed_over(scale, native@, sent as int, *old(queue), *final(queue)),
{
    let ghost mut scaled: Seq<T> = Seq::empty();
    let mut sent: usize = 0;
    while sent < native.len()
        invariant
            sent <= native@.len(),
            forall|sample: i32| call_requires(scale, (sample,)),
            scaled_by(scale, native@.take(sent as int), scaled),
            queue.offered() == old(queue).offered() + scaled,
            queue.sent() == old(queue).sent() + scaled,
        decreases native@.len() - sent,
    {
        let sample = scale(native[sent]);
        let ghost handed = sample;
        let accepted = queue.send(sample);
        proof {
            assert(scaled_by(scale, native@.take(sent + 1), scaled.push(handed)));
        }
        if !accepted {
            proof {
                assert(queue.offered().subrange(
                    old(queue).offered().len() as int,
                    old(queue).offered().len() + sent,
                ) == scaled);
            }
            return sent;
        }
        proof {
            scaled = scaled.push(handed);
        }
        sent += 1;
    }
    proof {
        assert(queue.offered().subrange(
            old(queue).offered().len() as int,
            old(queue).offered().len() + sent,
        ) == scaled);
    }
    sent
}

/// Decodes the FLAC stream `stream` and hands its samples to `queue`, each
/// scaled by `scale`, in stream order. Returns how many the queue accepted:
/// all of them, unless the queue refused one.
///
/// It fails exactly where the stream cannot be decoded, and the queue is then
/// offered nothing. A sample that fails to decode is no failure: it is handed
/// on as scaled silence.
pub fn produce<T, F: Fn(i32) -> T>(queue: &mut SampleSender<T>, stream: &[u8], scale: F) -> (out:
    Result<usize, DecodeError>)
    requires
        forall|sample: i32| call_requires(scale, (sample,)),
    ensures
        match out {
            Ok(sent) => {
                &&& decoded(stream@) matches Ok(native)
                &&& handed_over(scale, native, sent as int, *old(queue), *final(queue))
            },
            Err(error) => {
                &&& decoded(stream@) == Err::<Seq<i32>, DecodeError>(error)
                &&& final(queue).offered() == old(queue).offered()
                &&& final(queue).sent() == old(queue).sent()
            },
        },
{
    match native_samples(stream) {
        Ok(native) => Ok(enqueue_scaled(queue, native.as_slice(), scale)),
        Err(error) => Err(error),
    }
}

} // verus!
