//! Decoding of a FLAC stream into the native samples a cable carries.
//!
//! The stream is decoded by the `claxon` crate. What this module adds is the
//! rule for samples that fail to decode: each is replaced by silence, and the
//! samples around it keep their places.

use vstd::prelude::*;

verus! {

/// The number of zero bytes on end from which on a stream is refused
/// undecoded: 256 MiB. The decoder counts zero bits on end in 32 bits, and
/// with every run of zero bytes shorter than this, no such count overflows.
pub const MAX_ZERO_RUN: usize = 0x1000_0000;

/// The native sample that stands for silence.
pub const SILENCE: i32 = 0;

/// What `claxon` makes of a FLAC stream: `None` where it cannot read the
/// stream's header and metadata, else the items of its sample iterator in
/// order, channels interleaved, each a decoded sample or `None` for an error.
pub uninterp spec fn flac_items(bytes: Seq<u8>) -> Option<Seq<Option<i32>>>;

/// Whether the `run` bytes of `bytes` from index `start` on are all zero.
pub open spec fn zero_run_at(bytes: Seq<u8>, start: int, run: int) -> bool {
    &&& 0 <= start
    &&& start + run <= bytes.len()
    &&& forall|i: int| start <= i < start + run ==> bytes[i] == 0
}

/// Whether `bytes` holds `run` zero bytes on end somewhere.
pub open spec fn has_zero_run(bytes: Seq<u8>, run: int) -> bool {
    exists|start: int| zero_run_at(bytes, start, run)
}

/// The items of a decoded stream as a mathematical value.
pub open spec fn items_view(items: Option<Vec<Option<i32>>>) -> Option<Seq<Option<i32>>> {
    match items {
        Some(items) => Some(items@),
        None => None,
    }
}

/// Decodes `bytes` with `claxon::FlacReader::new` and collects what the
/// iterator of `FlacReader::samples` yields, an error as `None`. `None` as a
/// whole stands for the error of `FlacReader::new`.
///
/// Trusted: that the outcome is a function of the bytes alone, which
/// [`flac_items`] names, and that the decoder ends without a panic on every
/// stream without [`MAX_ZERO_RUN`] zero bytes on end.
#[verifier::external_body]
fn read_flac(bytes: &[u8]) -> (items: Option<Vec<Option<i32>>>)
    requires
        !has_zero_run(bytes@, MAX_ZERO_RUN as int),
    ensures
        items_view(items) == flac_items(bytes@),
{
    match claxon::FlacReader::new(bytes) {
        Ok(mut reader) => Some(reader.samples().map(|sample| sample.ok()).collect()),
        Err(_) => None,
    }
}

/// The native sample for one item of a decoded stream: the sample itself, or
/// silence where it failed to decode.
pub open spec fn sample_or_silence(item: Option<i32>) -> i32 {
    match item {
        Some(sample) => sample,
        None => SILENCE,
    }
}

/// The native samples for the items of a decoded stream: as many as there are
/// items and in their order, each error replaced by silence.
pub open spec fn silenced(items: Seq<Option<i32>>) -> Seq<i32> {
    Seq::new(items.len(), |i: int| sample_or_silence(items[i]))
}

/// Why a stream gave no samples.
#[derive(Clone, Copy, Debug, PartialEq, Eq, Structural)]
pub enum DecodeError {
    /// The stream holds [`MAX_ZERO_RUN`] zero bytes on end.
    ZeroRun,
    /// The stream's header or metadata could not be read.
    Malformed,
}

/// What [`native_samples`] returns for a stream, given what the decoder makes
/// of it.
pub open spec fn decoded(bytes: Seq<u8>) -> Result<Seq<i32>, DecodeError> {
    if has_zero_run(bytes, MAX_ZERO_RUN as int) {
        Err(DecodeError::ZeroRun)
    } else {
        match flac_items(bytes) {
            Some(items) => Ok(silenced(items)),
            None => Err(DecodeError::Malformed),
        }
    }
}

/// The mathematical value of what [`native_samples`] returns.
pub open spec fn samples_view(out: Result<Vec<i32>, DecodeError>) -> Result<Seq<i32>, DecodeError> {
    match out {
        Ok(samples) => Ok(samples@),
        Err(error) => Err(error),
    }
}

/// Replaces each item that failed to decode by silence, and keeps every
/// other sample at its place.
pub fn silence_errors(items: &Vec<Option<i32>>) -> (samples: Vec<i32>)
    ensures
        samples@ == silenced(items@),
{
    let mut samples: Vec<i32> = Vec::with_capacity(items.len());
    let mut i: usize = 0;
    while i < items.len()
        invariant
            i <= items.len(),
            samples@ == silenced(items@.take(i as int)),
        decreases items.len() - i,
    {
        let sample = match items[i] {
            Some(sample) => sample,
            None => SILENCE,
        };
        samples.push(sample);
        i += 1;
    }
    samples
}

/// Whether `bytes` holds [`MAX_ZERO_RUN`] zero bytes on end somewhere.
pub fn holds_zero_run(bytes: &[u8]) -> (found: bool)
    ensures
        found == has_zero_run(bytes@, MAX_ZERO_RUN as int),
{
    if bytes.len() < MAX_ZERO_RUN {
        return false;
    }
    // `zeros` is the length of the run of zero bytes that ends just before
    // index `i`.
    let mut zeros: usize = 0;
    let mut i: usize = 0;
    while i < bytes.len()
        invariant
            i <= bytes@.len(),
            zeros <= i,
            zeros < MAX_ZERO_RUN,
            forall|k: int| i - zeros <= k < i ==> bytes@[k] == 0,
            zeros < i ==> bytes@[i - zeros - 1] != 0,
            forall|start: int|
                start + MAX_ZERO_RUN <= i ==> !#[trigger] zero_run_at(
                    bytes@,
                    start,
                    MAX_ZERO_RUN as int,
                ),
        decreases bytes@.len() - i,
    {
        if bytes[i] == 0 {
            zeros += 1;
            if zeros == MAX_ZERO_RUN {
                assert(zero_run_at(bytes@, i + 1 - MAX_ZERO_RUN, MAX_ZERO_RUN as int));
                return true;
            }
        } else {
            zeros = 0;
        }
        i += 1;
        assert forall|start: int| start + MAX_ZERO_RUN <= i implies !#[trigger] zero_run_at(
            bytes@,
            start,
            MAX_ZERO_RUN as int,
        ) by {
            if start >= 0 && start + MAX_ZERO_RUN == i {
                // The run of zero bytes that ends here is shorter, so a byte
                // that is not zero stands at `start` or after it.
                assert(bytes@[i - zeros - 1] != 0);
            }
        }
    }
    false
}

/// Decodes a FLAC stream held in memory into its native samples, channels
/// interleaved and in stream order. A sample that fails to decode becomes
/// silence; the stream as a whole fails only where it holds more zero bytes
/// on end than the decoder can count, or its header or metadata cannot be
/// read.
pub fn native_samples(bytes: &[u8]) -> (out: Result<Vec<i32>, DecodeError>)
    ensures
        samples_view(out) == decoded(bytes@),
{
    if holds_zero_run(bytes) {
        return Err(DecodeError::ZeroRun);
    }
    match read_flac(bytes) {
        Some(items) => Ok(silence_errors(&items)),
        None => Err(DecodeError::Malformed),
    }
}

} // verus!
