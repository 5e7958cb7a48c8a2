//! Decoded audio samples.
use crate::float_bits::Single;
use crate::time::Duration;
use vstd::prelude::*;

verus! {

/// How samples lie in memory.
#[derive(Debug, Clone, Copy, PartialEq, Eq, Structural)]
pub enum PcmSampleFormat {
    /// Single-precision numbers, the channels of a frame one after the other.
    F32Interleaved,
}

/// The format of decoded audio.
#[derive(Debug, Clone, Copy, PartialEq, Eq, Structural)]
pub struct PcmFormat {
    pub sample_rate: u32,
    pub channels: u32,
    pub sample_format: PcmSampleFormat,
}

impl PcmFormat {
    /// Interleaved single-precision samples.
    pub fn f32_interleaved(sample_rate: u32, channels: u32) -> (result: Self)
        ensures
            result == (PcmFormat {
                sample_rate,
                channels,
                sample_format: PcmSampleFormat::F32Interleaved,
            }),
    {
        Self { sample_rate, channels, sample_format: PcmSampleFormat::F32Interleaved }
    }
}

impl Default for PcmFormat {
    fn default() -> (result: Self)
        ensures
            result == (PcmFormat {
                sample_rate: 48_000,
                channels: 2,
                sample_format: PcmSampleFormat::F32Interleaved,
            }),
    {
        Self::f32_interleaved(48_000, 2)
    }
}

/// Decoded audio. The time stamp is that of the first frame.
#[derive(Debug, Clone, PartialEq, Eq)]
pub struct PcmAudioFrame {
    pub format: PcmFormat,
    pub pts: Option<Duration>,
    pub frames: usize,
    pub samples: Vec<Single>,
}

} // verus!
