//! The verified core of an audio cable: the link that carries decoded samples
//! from a source file to an output device's real-time callback.
//!
//! * [`source`] classifies a source identifier by its extension.
//! * [`decode`] turns a FLAC stream into native samples.
//! * [`queue`] is the sample queue between the two ends of a cable.
//! * [`producer`] scales the samples of a stream and hands them to the queue.
//! * [`consumer`] fills an output buffer from the queue.
//! * [`device`] chooses the configuration of the output stream.

pub mod consumer;
pub mod decode;
pub mod device;
pub mod producer;
pub mod queue;
pub mod source;
