//! The choice of a stream configuration for an output device.
//!
//! A device lists the configurations it supports as ranges: a channel count
//! and a sample format, with the lowest and the highest sample rate that the
//! device takes for them. The consumer plays on the range that reaches the
//! highest sample rate, at that rate.

use vstd::prelude::*;

verus! {

/// How a device wants each sample written.
#[derive(Clone, Copy, Debug, PartialEq, Eq, Structural)]
pub enum SampleFormat {
    /// Signed 16-bit integers.
    Signed16,
    /// Unsigned 16-bit integers.
    Unsigned16,
    /// 32-bit floating point.
    Float32,
}

/// One range of configurations that a device supports.
#[derive(Clone, Copy, Debug, PartialEq, Eq, Structural)]
pub struct ConfigRange {
    /// The number of channels.
    pub channels: u16,
    /// The lowest sample rate of the range, in hertz.
    pub min_sample_rate: u32,
    /// The highest sample rate of the range, in hertz.
    pub max_sample_rate: u32,
    /// The format of a sample.
    pub sample_format: SampleFormat,
}

/// The configuration that a stream is opened with.
#[derive(Clone, Copy, Debug, PartialEq, Eq, Structural)]
pub struct StreamSettings {
    /// The number of channels.
    pub channels: u16,
    /// The sample rate, in hertz.
    pub sample_rate: u32,
    /// The format of a sample.
    pub sample_format: SampleFormat,
}

/// The configuration of `range` at its highest sample rate.
pub open spec fn at_max_rate(range: ConfigRange) -> StreamSettings {
    StreamSettings {
        channels: range.channels,
        sample_rate: range.max_sample_rate,
        sample_format: range.sample_format,
    }
}

/// Whether the range at index `at` reaches the highest sample rate of all,
/// and is the first of `ranges` to reach it.
pub open spec fn is_best(ranges: Seq<ConfigRange>, at: int) -> bool {
    &&& 0 <= at < ranges.len()
    &&& forall|i: int|
        0 <= i < ranges.len() ==> ranges[i].max_sample_rate <= ranges[at].max_sample_rate
    &&& forall|i: int| 0 <= i < at ==> ranges[i].max_sample_rate < ranges[at].max_sample_rate
}

/// The index of the best range of `ranges`, where there is one.
pub open spec fn best_index(ranges: Seq<ConfigRange>) -> int {
    choose|at: int| is_best(ranges, at)
}

/// The configuration to play on: none where the device supports none, else
/// the best range at its highest sample rate.
pub open spec fn negotiated(ranges: Seq<ConfigRange>) -> Option<StreamSettings> {
    if ranges.len() == 0 {
        None
    } else {
        Some(at_max_rate(ranges[best_index(ranges)]))
    }
}

/// No two ranges of a list are both its best.
pub proof fn lemma_best_is_unique(ranges: Seq<ConfigRange>, a: int, b: int)
    requires
        is_best(ranges, a),
        is_best(ranges, b),
    ensures
        a == b,
{
}

/// Every list of one or more ranges has a best one, and `best_index` is its
/// index.
pub proof fn lemma_best_exists(ranges: Seq<ConfigRange>)
    requires
        ranges.len() > 0,
    ensures
        is_best(ranges, best_index(ranges)),
    decreases ranges.len(),
{
    if ranges.len() == 1 {
        assert(is_best(ranges, 0));
    } else {
        let front = ranges.drop_last();
        lemma_best_exists(front);
        lemma_best_carries_on(ranges, best_index(front));
    }
}

/// Where `earlier` is the best of all ranges but the last, the best of all
/// is the last one if it reaches a higher sample rate, else `earlier`.
proof fn lemma_best_carries_on(ranges: Seq<ConfigRange>, earlier: int)
    requires
        ranges.len() > 1,
        is_best(ranges.drop_last(), earlier),
    ensures
        is_best(
            ranges,
            if ranges.last().max_sample_rate > ranges[earlier].max_sample_rate {
                ranges.len() - 1
            } else {
                earlier
            },
        ),
{
    let front = ranges.drop_last();
    let best = if ranges.last().max_sample_rate > ranges[earlier].max_sample_rate {
        ranges.len() - 1
    } else {
        earlier
    };
    let top = ranges[best].max_sample_rate;
    assert forall|i: int| 0 <= i < ranges.len() implies (#[trigger] ranges[i]).max_sample_rate
        <= top by {
        if i < front.len() {
            assert(front[i] == ranges[i]);
        }
    }
    assert forall|i: int| 0 <= i < best implies (#[trigger] ranges[i]).max_sample_rate < top by {
        assert(front[i] == ranges[i]);
    }
}

/// Chooses the configuration to open a stream with: of the ranges that the
/// device lists, the one that reaches the highest sample rate, at that rate;
/// the first of them where several reach it. `None` where the device lists no
/// range at all.
pub fn negotiate(ranges: &[ConfigRange]) -> (settings: Option<StreamSettings>)
    ensures
        settings == negotiated(ranges@),
        settings is None <==> ranges@.len() == 0,
        settings matches Some(chosen) ==> is_best(ranges@, best_index(ranges@)) && chosen
            == at_max_rate(ranges@[best_index(ranges@)]),
{
    if ranges.len() == 0 {
        return None;
    }
    let mut best: usize = 0;
    let mut i: usize = 1;
    while i < ranges.len()
        invariant
            1 <= i <= ranges@.len(),
            is_best(ranges@.take(i as int), best as int),
        decreases ranges@.len() - i,
    {
        proof {
            assert(ranges@.take(i + 1).drop_last() == ranges@.take(i as int));
            lemma_best_carries_on(ranges@.take(i + 1), best as int);
        }
        if ranges[i].max_sample_rate > ranges[best].max_sample_rate {
            best = i;
        }
        i += 1;
    }
    proof {
        assert(ranges@.take(i as int) == ranges@);
        lemma_best_is_unique(ranges@, best as int, best_index(ranges@));
    }
    let range = ranges[best];
    Some(
        StreamSettings {
            channels: range.channels,
            sample_rate: range.max_sample_rate,
            sample_format: range.sample_format,
        },
    )
}

} // verus!
