//! What is drawn over the video.
use crate::subtitle::bitmap::{SubtitleAlphaBitmap, SubtitleBitmapPlane};
use crate::time::Duration;
use vstd::prelude::*;

verus! {

/// The size of the surface that is drawn over.
#[derive(Debug, Clone, Copy, PartialEq, Eq, Structural)]
pub struct OverlayViewport {
    pub width: u32,
    pub height: u32,
}

impl OverlayViewport {
    /// A surface.
    pub fn new(width: u32, height: u32) -> (result: Self)
        ensures
            result == (OverlayViewport { width, height }),
    {
        Self { width, height }
    }
}

/// The planes that are drawn over a video frame.
#[derive(Debug, Clone, PartialEq, Eq)]
pub struct OverlayFrame {
    pub pts: Duration,
    pub viewport: OverlayViewport,
    pub subtitle_planes: Vec<SubtitleBitmapPlane>,
    pub subtitle_alpha_planes: Vec<SubtitleAlphaBitmap>,
    pub subtitle_changed: bool,
}

impl OverlayFrame {
    /// An overlay that draws nothing.
    pub fn empty(pts: Duration, viewport: OverlayViewport) -> (result: Self)
        ensures
            result.pts == pts,
            result.viewport == viewport,
            result.subtitle_planes@.len() == 0,
            result.subtitle_alpha_planes@.len() == 0,
            !result.subtitle_changed,
    {
        Self {
            pts,
            viewport,
            subtitle_planes: Vec::new(),
            subtitle_alpha_planes: Vec::new(),
            subtitle_changed: false,
        }
    }

    /// Whether the overlay draws nothing.
    pub fn is_empty(&self) -> (result: bool)
        ensures
            result <==> self.subtitle_planes@.len() == 0 && self.subtitle_alpha_planes@.len() == 0,
    {
        self.subtitle_planes.len() == 0 && self.subtitle_alpha_planes.len() == 0
    }
}

} // verus!
