//! Subtitles: decoded text and bitmaps, text file formats, ASS scripts, and
//! the frames that they are drawn as.
use vstd::prelude::*;

pub mod ass;
pub mod bitmap;
pub mod decoded;
pub mod error;
pub mod libass;
pub mod parse;
pub mod render;
pub mod timeline;
pub mod timestamp;
pub mod written;

pub use crate::subtitle::ass::{format_ass_timestamp, DEFAULT_ASS_SCRIPT_HEADER};
pub use crate::subtitle::bitmap::{
    AssBitmapPlane, AssColor, LibassImageImporter, RawAssImage, SubtitleAlphaBitmap,
    SubtitleBitmapColorSpace, SubtitleBitmapPlacement, SubtitleBitmapPlane, SubtitleBitmapSet,
    SubtitleFrame,
};
pub use crate::subtitle::decoded::{
    decoded_subtitle_frames_to_ass_script, decoded_subtitle_frames_to_timeline,
    DecodedSubtitleFrame, SubtitleTextFormat, SubtitleTextSegment, SubtitleTrackConfig,
    SubtitleTrackSource,
};
pub use crate::subtitle::error::{Result, SubtitleError};
pub use crate::subtitle::libass::LibassSubtitleRenderer;
pub use crate::subtitle::parse::{
    parse_ass_events, parse_srt, parse_subtitle_text_file, parse_webvtt,
    try_parse_subtitle_text_file, SubtitleFileFormat,
};
pub use crate::subtitle::render::{
    LibassRenderConfig, LibassRenderOperation, LibassRenderPlan, SubtitleFrameChange,
    SubtitleRenderBackend, SubtitleRenderOutput, SubtitleRenderRequest, SubtitleRenderResult,
    SubtitleRenderViewport, SubtitleRenderer, SubtitleRendererBackend, SubtitleRendererCore,
    SubtitleViewport,
};
pub use crate::subtitle::timeline::{SubtitleCue, SubtitleTimeline};

verus! {

} // verus!
