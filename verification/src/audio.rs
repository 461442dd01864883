//! Sample arithmetic of the player: the audio format a stream is played
//! with, and the conversions between durations and sample counts that the
//! output buffers are sized by.

use vstd::prelude::*;
use crate::messages::{PcmChannels, PcmSampleRate};

verus! {

/// The smallest raw output buffer of the pulse and pipewire outputs, in
/// bytes.
pub const MIN_AUDIO_BUFFER_SIZE: usize = 8 * 1024;

/// The format the stream command announces, with what the decoder reports
/// in place of the self-describing values.
#[derive(Debug, Clone, Copy, PartialEq, Eq, Structural)]
pub struct AudioSpec {
    pub channels: usize,
    pub sample_rate: u32,
}

impl AudioSpec {
    /// The sample rate and channel count that the stream command sets, the
    /// decoder's own where the command leaves them to the stream.
    pub fn resolve(
        pcmsamplerate: PcmSampleRate,
        pcmchannels: PcmChannels,
        decoder_rate: u32,
        decoder_channels: u16,
    ) -> (r: AudioSpec)
        ensures
            r.sample_rate == match pcmsamplerate {
                PcmSampleRate::Rate(v) => v,
                PcmSampleRate::SelfDescribing => decoder_rate,
            },
            r.channels == match pcmchannels {
                PcmChannels::Mono => 1,
                PcmChannels::Stereo => 2,
                PcmChannels::SelfDescribing => decoder_channels as usize,
            },
    {
        let sample_rate = match pcmsamplerate {
            PcmSampleRate::Rate(v) => v,
            PcmSampleRate::SelfDescribing => decoder_rate,
        };
        let channels = match pcmchannels {
            PcmChannels::Mono => 1,
            PcmChannels::Stereo => 2,
            PcmChannels::SelfDescribing => decoder_channels as usize,
        };
        AudioSpec { channels, sample_rate }
    }

    /// The channel count to play with: the decoder's, unless it reports
    /// none.
    pub fn channels(&self, decoder_channels: usize) -> (r: usize)
        ensures
            r == if decoder_channels > 0 {
                decoder_channels
            } else {
                self.channels
            },
    {
        if decoder_channels > 0 {
            decoder_channels
        } else {
            self.channels
        }
    }

    /// The sample rate to play with: the decoder's, unless it reports none.
    pub fn sample_rate(&self, decoder_rate: u32) -> (r: u32)
        ensures
            r == if decoder_rate > 0 {
                decoder_rate
            } else {
                self.sample_rate
            },
    {
        if decoder_rate > 0 {
            decoder_rate
        } else {
            self.sample_rate
        }
    }
}

/// The number of samples (all channels together) that `micros`
/// microseconds of audio hold, rounded down.
pub fn dur_to_samples(sample_rate: u32, channels: usize, micros: u64) -> (r: u64)
    requires
        sample_rate * channels <= u64::MAX,
        sample_rate * channels * micros <= u64::MAX,
    ensures
        r == sample_rate * channels * micros / 1_000_000,
{
    let per_sec = sample_rate as u64 * channels as u64;
    per_sec * micros / 1_000_000
}

/// The whole milliseconds that `samples` samples (all channels together)
/// last.
pub fn samples_to_millis(samples: u64, sample_rate: u32, channels: usize) -> (r: u64)
    requires
        samples * 1000 <= u64::MAX,
        0 < sample_rate * channels <= u64::MAX,
    ensures
        r == samples * 1000 / (sample_rate * channels),
{
    samples * 1000 / (sample_rate as u64 * channels as u64)
}

/// The size of one sample in the raw output buffers (32-bit float).
pub const SAMPLE_BYTES: usize = 4;

/// How many buffered bytes a skip of `skip_samples` samples drops: all of
/// them, or as many as are buffered.
pub fn skip_byte_count(skip_samples: u64, buffered: usize) -> (r: usize)
    requires
        skip_samples * 4 <= usize::MAX,
    ensures
        r == if skip_samples * 4 < buffered {
            skip_samples * 4
        } else {
            buffered as int
        },
{
    let bytes = (skip_samples * 4) as usize;
    if bytes < buffered {
        bytes
    } else {
        buffered
    }
}

/// The whole milliseconds that `bytes` bytes of raw output last.
pub fn played_millis(bytes: usize, channels: usize, sample_rate: u32) -> (r: usize)
    requires
        bytes * 1000 <= usize::MAX,
        0 < 4 * channels * sample_rate <= usize::MAX,
    ensures
        r == bytes * 1000 / (4 * channels * sample_rate),
{
    assert(4 * channels <= 4 * channels * sample_rate) by (nonlinear_arith)
        requires
            0 < 4 * channels * sample_rate,
    ;
    bytes * 1000 / (SAMPLE_BYTES * channels * sample_rate as usize)
}

/// How many bytes a decoder fill goes up to: `limit`, or else half the
/// buffer's capacity but at least 1024.
pub fn fill_limit(limit: Option<usize>, capacity: usize) -> (r: usize)
    ensures
        r == match limit {
            Some(l) => l,
            None => if capacity / 2 > 1024 {
                capacity / 2
            } else {
                1024
            },
        },
{
    match limit {
        Some(l) => l,
        None => if capacity / 2 > 1024 {
            capacity / 2
        } else {
            1024
        },
    }
}

/// The size of a raw output buffer that holds `num_samples` samples, and
/// no less than `MIN_AUDIO_BUFFER_SIZE`.
pub fn output_buffer_size(num_samples: usize) -> (r: usize)
    ensures
        r == if num_samples > MIN_AUDIO_BUFFER_SIZE {
            num_samples
        } else {
            MIN_AUDIO_BUFFER_SIZE
        },
{
    if num_samples > MIN_AUDIO_BUFFER_SIZE {
        num_samples
    } else {
        MIN_AUDIO_BUFFER_SIZE
    }
}


/// Converting a duration to samples and back never overshoots: the whole
/// milliseconds that `dur_to_samples` samples last are at most the
/// microseconds converted.
pub proof fn lemma_samples_round_trip(sample_rate: u32, channels: usize, micros: u64)
    requires
        0 < sample_rate * channels,
    ensures
        (sample_rate * channels * micros / 1_000_000) * 1000 / (sample_rate * channels) * 1000
            <= micros,
{
    let rc: int = sample_rate * channels;
    let u: int = micros as int;
    let s: int = rc * u / 1_000_000;
    let m: int = s * 1000 / rc;
    assert(s * 1_000_000 <= rc * u) by (nonlinear_arith)
        requires
            s == rc * u / 1_000_000,
            rc > 0,
            u >= 0,
    ;
    assert(m * rc <= s * 1000) by (nonlinear_arith)
        requires
            m == s * 1000 / rc,
            rc > 0,
            s >= 0,
    ;
    assert(m * 1000 <= u) by (nonlinear_arith)
        requires
            m * rc <= s * 1000,
            s * 1_000_000 <= rc * u,
            rc > 0,
            m >= 0,
    ;
    assert(rc * u == sample_rate * channels * micros) by (nonlinear_arith)
        requires
            rc == sample_rate * channels,
            u == micros,
    ;
}

} // verus!
