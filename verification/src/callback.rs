//! The unit that marks the end of a track in the playback queue: a source
//! of no samples that, when the queue reaches it, hands its message over to
//! be posted.

use std::marker::PhantomData;
use vstd::prelude::*;

verus! {

/// Channels that the empty unit declares.
pub const CALLBACK_CHANNELS: u16 = 1;

/// Sample rate that the empty unit declares.
pub const CALLBACK_SAMPLE_RATE: u32 = 48000;

/// An empty source of samples of type `S` that carries the message `args`.
pub struct Callback<T, S> {
    pub phantom_data: PhantomData<S>,
    pub args: T,
}

impl<T: Copy, S> Callback<T, S> {
    /// An empty source that carries `args`.
    pub fn new(args: T) -> (source: Callback<T, S>)
        ensures
            source.args == args,
    {
        Callback { phantom_data: PhantomData, args }
    }

    /// What the queue gets when it asks for the next sample: no sample,
    /// which ends the source, and the message to post.
    pub fn next(&self) -> (step: (Option<S>, T))
        ensures
            step.0 is None,
            step.1 == self.args,
    {
        (None, self.args)
    }

    /// The source has no frame length of its own.
    pub fn current_frame_len(&self) -> (len: Option<usize>)
        ensures
            len is None,
    {
        None
    }

    /// The source declares one channel.
    pub fn channels(&self) -> (channels: u16)
        ensures
            channels == CALLBACK_CHANNELS,
    {
        CALLBACK_CHANNELS
    }

    /// The source declares a rate of 48000 samples per second.
    pub fn sample_rate(&self) -> (rate: u32)
        ensures
            rate == CALLBACK_SAMPLE_RATE,
    {
        CALLBACK_SAMPLE_RATE
    }

    /// The source lasts no time at all: its duration in nanoseconds.
    pub fn total_duration(&self) -> (nanos: Option<u64>)
        ensures
            nanos == Some(0u64),
    {
        Some(0)
    }
}

} // verus!
