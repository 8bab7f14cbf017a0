//! The size of the latency window. The latency is a fixed parameter of a
//! session: a duration in milliseconds that, with the negotiated sample
//! rate and channel count, gives the number of samples the jitter buffer is
//! primed with, and half its capacity.

use vstd::prelude::*;

verus! {

/// The number of frames in `latency_ms` milliseconds at `sample_rate_hz`,
/// rounded to the nearest frame, halves up.
pub open spec fn latency_frames_spec(latency_ms: u32, sample_rate_hz: u32) -> nat {
    ((latency_ms * sample_rate_hz + 500) / 1000) as nat
}

/// The number of samples in `frames` frames of `channels` channels each.
pub open spec fn latency_samples_spec(frames: u64, channels: u16) -> nat {
    (frames * channels) as nat
}

/// The number of frames in a latency of `latency_ms` whole milliseconds at
/// `sample_rate_hz`, rounded to the nearest frame.
pub fn latency_frames(latency_ms: u32, sample_rate_hz: u32) -> (frames: u64)
    ensures
        frames == latency_frames_spec(latency_ms, sample_rate_hz),
{
    assert(latency_ms * sample_rate_hz <= 0xFFFF_FFFF * 0xFFFF_FFFF) by (nonlinear_arith)
        requires
            latency_ms <= 0xFFFF_FFFF,
            sample_rate_hz <= 0xFFFF_FFFF,
    ;
    let product: u64 = (latency_ms as u64) * (sample_rate_hz as u64);
    (product + 500) / 1000
}

/// The number of samples in the latency window: frames times channels, or
/// `None` if that does not fit in `usize`.
pub fn latency_samples(frames: u64, channels: u16) -> (samples: Option<usize>)
    ensures
        latency_samples_spec(frames, channels) <= usize::MAX ==> samples == Some(
            latency_samples_spec(frames, channels) as usize,
        ),
        latency_samples_spec(frames, channels) > usize::MAX ==> samples is None,
{
    assert(frames * channels <= 0xFFFF_FFFF_FFFF_FFFF * 0xFFFF) by (nonlinear_arith)
        requires
            frames <= 0xFFFF_FFFF_FFFF_FFFF,
            channels <= 0xFFFF,
    ;
    let product: u128 = (frames as u128) * (channels as u128);
    if product <= usize::MAX as u128 {
        Some(product as usize)
    } else {
        None
    }
}

} // verus!
