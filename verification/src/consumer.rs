//! The consuming end of a cable: what an output device's callback does with
//! the sample queue.
//!
//! The callback is handed a buffer of frames to fill. For each frame it waits
//! a bounded time for a sample; a sample that does not arrive in time is an
//! underrun, and the frame is filled with silence instead.

use crate::queue::{arrivals_in, SampleReceiver, RECEIVE_TIMEOUT_MS};
use vstd::prelude::*;

verus! {

/// The frame that is played for what a receive gave: the sample, or silence
/// on an underrun.
pub open spec fn frame_for<T>(taken: Option<T>, silence: T) -> T {
    match taken {
        Some(sample) => sample,
        None => silence,
    }
}

/// The frames that are played for a run of receives, in their order.
pub open spec fn frames_for<T>(run: Seq<Option<T>>, silence: T) -> Seq<T> {
    Seq::new(run.len(), |i: int| frame_for(run[i], silence))
}

/// The number of underruns in a run of receives.
pub open spec fn underruns_in<T>(run: Seq<Option<T>>) -> nat
    decreases run.len(),
{
    if run.len() == 0 {
        0
    } else {
        underruns_in(run.drop_last()) + if run.last() is None {
            1nat
        } else {
            0nat
        }
    }
}

/// The run of receives that an end made between two moments: what its
/// record of outcomes holds at the later one beyond what it held at the
/// earlier.
pub open spec fn run_between<T>(before: Seq<Option<T>>, after: Seq<Option<T>>) -> Seq<Option<T>> {
    after.skip(before.len() as int)
}

/// What a run of receives makes of a buffer and of the receiving end's
/// record: the run is what was added to the record, there was one receive
/// per frame, and each frame holds what its receive gave or silence.
pub open spec fn filled_by<T>(
    run: Seq<Option<T>>,
    silence: T,
    frames: Seq<T>,
    underruns: nat,
    outcomes_before: Seq<Option<T>>,
    outcomes_after: Seq<Option<T>>,
) -> bool {
    &&& outcomes_after == outcomes_before + run
    &&& frames == frames_for(run, silence)
    &&& underruns == underruns_in(run)
}

/// Every receive of a run either brought a sample or was an underrun.
pub proof fn lemma_run_is_split<T>(run: Seq<Option<T>>)
    ensures
        arrivals_in(run).len() + underruns_in(run) == run.len(),
    decreases run.len(),
{
    if run.len() > 0 {
        lemma_run_is_split(run.drop_last());
    }
}

/// A run of nothing but underruns plays nothing but silence, and takes
/// nothing out of the queue.
pub proof fn lemma_silent_run<T>(run: Seq<Option<T>>, silence: T)
    requires
        underruns_in(run) == run.len(),
    ensures
        forall|i: int| 0 <= i < run.len() ==> #[trigger] frames_for(run, silence)[i] == silence,
        arrivals_in(run) == Seq::<T>::empty(),
    decreases run.len(),
{
    if run.len() > 0 {
        let front = run.drop_last();
        lemma_run_is_split(front);
        lemma_silent_run(front, silence);
        assert forall|i: int| 0 <= i < run.len() implies #[trigger] frames_for(run, silence)[i]
            == silence by {
            if i < front.len() {
                assert(frames_for(front, silence)[i] == silence);
            }
        }
    }
}

/// A run without an underrun plays exactly the samples it took out of the
/// queue, in the order in which it took them.
pub proof fn lemma_full_run<T>(run: Seq<Option<T>>, silence: T)
    requires
        underruns_in(run) == 0,
    ensures
        frames_for(run, silence) == arrivals_in(run),
    decreases run.len(),
{
    if run.len() > 0 {
        let front = run.drop_last();
        lemma_full_run(front, silence);
        assert(frames_for(run, silence) == frames_for(front, silence).push(
            frame_for(run.last(), silence),
        ));
    }
}

/// Filling two buffers one after the other is filling the two as one: the
/// frames, the underruns and the samples taken of the two runs add up.
pub proof fn lemma_runs_join<T>(first: Seq<Option<T>>, second: Seq<Option<T>>, silence: T)
    ensures
        frames_for(first + second, silence) == frames_for(first, silence) + frames_for(
            second,
            silence,
        ),
        underruns_in(first + second) == underruns_in(first) + underruns_in(second),
        arrivals_in(first + second) == arrivals_in(first) + arrivals_in(second),
    decreases second.len(),
{
    assert(frames_for(first + second, silence) == frames_for(first, silence) + frames_for(
        second,
        silence,
    ));
    if second.len() == 0 {
        assert(first + second == first);
    } else {
        lemma_runs_join(first, second.drop_last(), silence);
        assert((first + second).drop_last() == first + second.drop_last());
        match second.last() {
            Some(sample) => {
                assert((arrivals_in(first) + arrivals_in(second.drop_last())).push(sample)
                    == arrivals_in(first) + arrivals_in(second.drop_last()).push(sample));
            },
            None => {},
        }
    }
}

/// On a queue that hands its samples over in the order in which it accepted
/// them, a run of receives takes the samples that were sent next, in the
/// order in which they were sent: where `sent` is what the queue accepted and
/// what the receiving end has taken is a prefix of it both before and after
/// the run, the arrivals of the run are the stretch of `sent` in between.
pub proof fn lemma_arrivals_are_the_next_sent<T>(
    sent: Seq<T>,
    received_before: Seq<T>,
    run: Seq<Option<T>>,
)
    requires
        (received_before + arrivals_in(run)).is_prefix_of(sent),
    ensures
        received_before.is_prefix_of(sent),
        arrivals_in(run) == sent.subrange(
            received_before.len() as int,
            (received_before.len() + arrivals_in(run).len()) as int,
        ),
{
    let taken = received_before + arrivals_in(run);
    let stretch = sent.subrange(
        received_before.len() as int,
        (received_before.len() + arrivals_in(run).len()) as int,
    );
    assert forall|i: int| 0 <= i < arrivals_in(run).len() implies arrivals_in(run)[i]
        == stretch[i] by {
        assert(taken[received_before.len() + i] == sent.subrange(0, taken.len() as int)[
            received_before.len() + i
        ]);
    }
    assert forall|i: int| 0 <= i < received_before.len() implies received_before[i] == sent[i] by {
        assert(taken[i] == sent.subrange(0, taken.len() as int)[i]);
    }
}

/// On a queue that hands its samples over in the order in which it accepted
/// them, nothing but silence follows the last sample: where the receiving
/// end has taken all of `sent`, and what it takes stays a prefix of `sent`,
/// every later receive is an underrun and every later frame is silence.
pub proof fn lemma_silence_after_the_last_sample<T>(
    sent: Seq<T>,
    earlier: Seq<Option<T>>,
    later: Seq<Option<T>>,
    silence: T,
)
    requires
        arrivals_in(earlier) == sent,
        arrivals_in(earlier + later).is_prefix_of(sent),
    ensures
        underruns_in(later) == later.len(),
        arrivals_in(later) == Seq::<T>::empty(),
        forall|i: int| 0 <= i < later.len() ==> #[trigger] frames_for(later, silence)[i] == silence,
{
    lemma_runs_join(earlier, later, silence);
    lemma_run_is_split(later);
    lemma_silent_run(later, silence);
}

/// The frame to play for what a receive gave: the sample, or `silence` on an
/// underrun.
pub fn frame_or_silence<T>(taken: Option<T>, silence: T) -> (frame: T)
    ensures
        frame == frame_for(taken, silence),
{
    match taken {
        Some(sample) => sample,
        None => silence,
    }
}

/// Fills every frame of `frames` from `queue`, first frame first: each with
/// the next sample if one arrives in time, else with `silence`. Returns the
/// number of underruns.
///
/// What arrives is not in this function's hands. What is: the queue is asked
/// once for each frame, in the order of the frames and for a wait of
/// [`RECEIVE_TIMEOUT_MS`] each, and each frame holds what its own receive
/// gave, or silence. The run of receives is the one that the receiving end
/// records, so the samples that arrived were taken from the queue in that
/// order and no others. Two runs are spelled out: with nothing but underruns
/// the buffer is nothing but silence, and without any it holds exactly the
/// samples taken.
pub fn fill_frames<T: Copy>(
    frames: &mut [T],
    queue: &mut SampleReceiver<T>,
    silence: T,
) -> (underruns: usize)
    ensures
        final(frames)@.len() == old(frames)@.len(),
        underruns <= final(frames)@.len(),
        filled_by(
            run_between(old(queue).outcomes(), final(queue).outcomes()),
            silence,
            final(frames)@,
            underruns as nat,
            old(queue).outcomes(),
            final(queue).outcomes(),
        ),
        final(queue).wait_asked() == old(queue).wait_asked() + old(frames)@.len()
            * RECEIVE_TIMEOUT_MS,
        final(queue).received() == old(queue).received() + arrivals_in(
            run_between(old(queue).outcomes(), final(queue).outcomes()),
        ),
        underruns == final(frames)@.len() ==> final(queue).received() == old(queue).received()
            && forall|i: int| 0 <= i < final(frames)@.len() ==> final(frames)@[i] == silence,
        underruns == 0 ==> final(queue).received() == old(queue).received() + final(frames)@,
{
    let ghost mut run: Seq<Option<T>> = Seq::empty();
    let mut underruns: usize = 0;
    let mut i: usize = 0;
    while i < frames.len()
        invariant
            frames@.len() == old(frames)@.len(),
            i <= frames@.len(),
            run.len() == i,
            underruns <= i,
            underruns == underruns_in(run),
            frames@.take(i as int) == frames_for(run, silence),
            queue.outcomes() == old(queue).outcomes() + run,
            queue.wait_asked() == old(queue).wait_asked() + i * RECEIVE_TIMEOUT_MS,
        decreases frames@.len() - i,
    {
        let ghost filled = frames@.take(i as int);
        let ghost earlier = run;
        let taken = queue.receive();
        proof {
            run = run.push(taken);
            assert(run.drop_last() == earlier);
            assert(old(queue).outcomes() + earlier.push(taken) == (old(queue).outcomes()
                + earlier).push(taken));
        }
        if taken.is_none() {
            underruns += 1;
        }
        frames[i] = frame_or_silence(taken, silence);
        i += 1;
        assert forall|j: int| 0 <= j < i implies frames@.take(i as int)[j] == frame_for(
            run[j],
            silence,
        ) by {
            if j < i - 1 {
                assert(filled[j] == frame_for(earlier[j], silence));
            }
        }
    }
    proof {
        assert(frames@.take(i as int) == frames@);
        assert(run_between(old(queue).outcomes(), queue.outcomes()) == run);
        lemma_runs_join(old(queue).outcomes(), run, silence);
        if underruns == frames@.len() {
            lemma_silent_run(run, silence);
        }
        if underruns == 0 {
            lemma_full_run(run, silence);
        }
    }
    underruns
}

} // verus!
