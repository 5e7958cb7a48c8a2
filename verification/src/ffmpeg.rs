//! Decoded media as plain values: streams, packets, frames and samples.
use vstd::prelude::*;

pub mod avio;
pub mod codes;
pub mod decoder;
pub mod demuxer;
pub mod frame;
pub mod packet;
pub mod pcm;
pub mod planes;
pub mod probe;
pub mod stamp;
pub mod subtitle;

pub use crate::ffmpeg::codes::{DecoderBackend, DecoderConfig};
pub use crate::ffmpeg::decoder::{
    AudioResampler, Decoder, DecoderOutput, DecoderOutputFrame, SubtitleDecoder,
};
pub use crate::ffmpeg::demuxer::{probe_uri, CodecParameters, Demuxer};
pub use crate::ffmpeg::frame::Frame;
pub use crate::ffmpeg::packet::Packet;
pub use crate::ffmpeg::pcm::{PcmAudioFrame, PcmFormat, PcmSampleFormat};
pub use crate::ffmpeg::planes::{Nv12Frame, PlanarFrame, PlanarPixelFormat};
pub use crate::ffmpeg::probe::{AudioProbe, MediaProbe, VideoProbe};
pub use crate::ffmpeg::stamp::{
    FfmpegError, PacketFlags, PacketTimestamp, Result, StreamSelection, TimeBase,
};

verus! {

} // verus!
