//! Tracks of a media file and the colours of its video.
use vstd::prelude::*;

verus! {

/// What a track holds.
#[derive(Debug, Clone, Copy, PartialEq, Eq, Structural)]
pub enum TrackKind {
    Video,
    Audio,
    Subtitle,
}

/// A track.
#[derive(Debug, Clone, PartialEq, Eq)]
pub struct TrackInfo {
    pub id: i64,
    pub kind: TrackKind,
    pub title: Option<String>,
    pub language: Option<String>,
    pub codec: Option<String>,
    pub selected: bool,
    pub is_external: bool,
}

impl TrackInfo {
    /// A stream of the media file.
    pub fn embedded(id: i64, kind: TrackKind) -> (result: Self)
        ensures
            result == (TrackInfo {
                id,
                kind,
                title: None,
                language: None,
                codec: None,
                selected: false,
                is_external: false,
            }),
    {
        Self {
            id,
            kind,
            title: None,
            language: None,
            codec: None,
            selected: false,
            is_external: false,
        }
    }

    /// A track from a file of its own.
    pub fn external(id: i64, kind: TrackKind) -> (result: Self)
        ensures
            result == (TrackInfo {
                id,
                kind,
                title: None,
                language: None,
                codec: None,
                selected: false,
                is_external: true,
            }),
    {
        Self {
            id,
            kind,
            title: None,
            language: None,
            codec: None,
            selected: false,
            is_external: true,
        }
    }
}

/// The tracks that are played.
#[derive(Debug, Clone, Copy, PartialEq, Eq, Structural)]
pub struct TrackSelection {
    pub video: Option<i64>,
    pub audio: Option<i64>,
    pub subtitle: Option<i64>,
}

/// The primaries that colours are mixed from.
#[derive(Debug, Clone, Copy, PartialEq, Eq, Structural)]
pub enum ColorPrimaries {
    Unknown,
    Bt709,
    DisplayP3,
    Bt2020,
}

/// How light is coded.
#[derive(Debug, Clone, Copy, PartialEq, Eq, Structural)]
pub enum TransferFunction {
    Unknown,
    Srgb,
    Bt1886,
    Pq,
    Hlg,
}

/// The size and colours of a video.
#[derive(Debug, Clone, Copy, PartialEq, Eq, Structural)]
pub struct VideoParams {
    pub width: u32,
    pub height: u32,
    pub primaries: ColorPrimaries,
    pub transfer: TransferFunction,
}

/// The texts of an optional string.
pub open spec fn text_view(text: Option<String>) -> Option<Seq<char>> {
    match text {
        Some(text) => Some(text@),
        None => None,
    }
}

/// Another optional string of the same characters.
pub fn copy_text(text: &Option<String>) -> (result: Option<String>)
    ensures
        text_view(result) == text_view(*text),
{
    match text {
        Some(text) => Some(text.clone()),
        None => None,
    }
}

} // verus!
